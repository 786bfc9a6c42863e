//! The entrance: a request counts only if the pinned coordinator signed it,
//! its expiry lies in the node's window and its nonce is fresh.

use vstd::prelude::*;

use crate::crypto::{
    der_signature, ecdsa_verifies, from_hex, hex_bytes, is_hex, parse_der, verify_ecdsa,
};
use crate::node::NodeView;
use crate::proto::{refusal, refused, RefusalCode, SignResponse, SignResponseView};
use crate::replay::{
    nonce_live, NonceClaim, NonceDecision, NonceLog, NonceLogView, MAX_COORD_NONCE_BYTES,
};
use crate::text::{decimal, owned, push_decimal};

verus! {

/// The freshness fields of a request, as the coordinator's signature covers them.
pub struct CoordRequest<'a> {
    pub nonce: &'a String,
    pub expiry: u64,
    /// Whether it is a spend; otherwise it is a refresh.
    pub spend: bool,
    /// The digest that the coordinator signs.
    pub digest: [u8; 32],
    /// The coordinator's signature, DER in hexadecimal.
    pub coord_sig: &'a String,
}

/// Why the coordinator's signature over `digest` is refused, if it is.
pub open spec fn signature_refusal(
    digest: [u8; 32],
    coord_sig: Seq<char>,
    key: Seq<u8>,
) -> Option<SignResponseView> {
    if !is_hex(coord_sig) {
        Some(refused(RefusalCode::CoordAuthInvalid, "coord_sig"@, "coord_sig is not hex"@))
    } else if der_signature(hex_bytes(coord_sig)) is None {
        Some(
            refused(
                RefusalCode::CoordAuthInvalid,
                "coord_sig"@,
                "coord_sig is not a DER ECDSA signature"@,
            ),
        )
    } else if !ecdsa_verifies(digest, hex_bytes(coord_sig), key) {
        Some(
            refused(
                RefusalCode::CoordAuthInvalid,
                "coord_sig"@,
                "coord_sig does not verify against the pinned coordinator_auth_pubkey"@,
            ),
        )
    } else {
        None
    }
}

/// The refusal that words a nonce decision, `None` for an acceptance.
pub open spec fn decision_refusal(
    decision: NonceDecision,
    expiry: u64,
    max_age: u64,
) -> Option<SignResponseView> {
    match decision {
        NonceDecision::Accepted => None,
        NonceDecision::InvalidLength => Some(
            refused(
                RefusalCode::CoordAuthInvalid,
                "coord_nonce"@,
                "request nonce must be 1..="@ + decimal(MAX_COORD_NONCE_BYTES as nat) + " bytes"@,
            ),
        ),
        NonceDecision::OutsideWindow { now } => Some(
            refused(
                RefusalCode::CommitmentExpired,
                "commitment_expiry"@,
                "expiry "@ + decimal(expiry as nat) + " is outside the acceptance window (now "@
                    + decimal(now as nat) + ", max age "@ + decimal(max_age as nat) + "s)"@,
            ),
        ),
        NonceDecision::Replayed => Some(
            refused(
                RefusalCode::NonceReplayed,
                "coord_nonce"@,
                "request nonce has already been seen by this node"@,
            ),
        ),
        NonceDecision::AtCapacity => Some(
            refused(
                RefusalCode::CoordNonceCapacity,
                "coord_nonce_capacity"@,
                "coordinator nonce cache is at capacity"@,
            ),
        ),
    }
}

impl CoordRequest<'_> {
    /// What the request brings to the nonce log of a node that reads these clocks.
    /// Only a spend on a node with peers fixes a carrier deadline.
    pub open spec fn claim(self, now: u64, max_age: u64, mono_now: Option<u64>) -> NonceClaim {
        NonceClaim {
            nonce: self.nonce@,
            expiry: self.expiry,
            now,
            max_age,
            mono_now,
            fixes_deadline: self.spend && mono_now is Some,
        }
    }
}

/// Why the entrance refuses a request, if it does.
pub open spec fn entry_refusal(
    node: NodeView,
    request: CoordRequest,
    now: u64,
    mono_now: Option<u64>,
) -> Option<SignResponseView> {
    match signature_refusal(request.digest, request.coord_sig@, node.keys.coordinator_auth) {
        Some(r) => Some(r),
        None => {
            let max_age = node.params.max_commitment_age_secs;
            decision_refusal(
                node.sign_state.coord_nonces.decision(request.claim(now, max_age, mono_now)),
                request.expiry,
                max_age,
            )
        },
    }
}

fn auth_invalid(check: &str, detail: &str) -> (response: SignResponse)
    ensures
        response@ == refused(RefusalCode::CoordAuthInvalid, check@, detail@),
{
    refusal(RefusalCode::CoordAuthInvalid, check, owned(detail))
}

/// Checks the coordinator's signature over `digest` and nothing else.
pub fn verify_coord_signature(
    coordinator_auth: &Vec<u8>,
    digest: &[u8; 32],
    coord_sig: &String,
) -> (out: Result<(), SignResponse>)
    ensures
        match out {
            Ok(()) => signature_refusal(*digest, coord_sig@, coordinator_auth@) is None,
            Err(r) => signature_refusal(*digest, coord_sig@, coordinator_auth@) == Some(r@),
        },
{
    let der = match from_hex(coord_sig.as_str()) {
        Some(der) => der,
        None => return Err(auth_invalid("coord_sig", "coord_sig is not hex")),
    };
    if parse_der(der.as_slice()).is_none() {
        return Err(auth_invalid("coord_sig", "coord_sig is not a DER ECDSA signature"));
    }
    if !verify_ecdsa(digest, der.as_slice(), coordinator_auth.as_slice()) {
        return Err(
            auth_invalid(
                "coord_sig",
                "coord_sig does not verify against the pinned coordinator_auth_pubkey",
            ),
        );
    }
    Ok(())
}

/// The canonical encoding of a request's signature, by which two spellings of one
/// signature are known for the same; `None` where the text is no signature.
pub fn canonical_signature(coord_sig: &String) -> (canonical: Option<Vec<u8>>)
    ensures
        canonical is Some <==> is_hex(coord_sig@) && der_signature(hex_bytes(coord_sig@)) is Some,
        canonical matches Some(c) ==> der_signature(hex_bytes(coord_sig@)) == Some(c@),
{
    match from_hex(coord_sig.as_str()) {
        Some(der) => parse_der(der.as_slice()),
        None => None,
    }
}

fn decision_response(decision: NonceDecision, expiry: u64, max_age: u64) -> (out: Result<
    (),
    SignResponse,
>)
    ensures
        match out {
            Ok(()) => decision == NonceDecision::Accepted,
            Err(r) => decision_refusal(decision, expiry, max_age) == Some(r@),
        },
{
    match decision {
        NonceDecision::Accepted => Ok(()),
        NonceDecision::InvalidLength => {
            let mut detail = owned("request nonce must be 1..=");
            push_decimal(&mut detail, MAX_COORD_NONCE_BYTES as u64);
            detail.append(" bytes");
            Err(refusal(RefusalCode::CoordAuthInvalid, "coord_nonce", detail))
        },
        NonceDecision::OutsideWindow { now } => {
            let mut detail = owned("expiry ");
            push_decimal(&mut detail, expiry);
            detail.append(" is outside the acceptance window (now ");
            push_decimal(&mut detail, now);
            detail.append(", max age ");
            push_decimal(&mut detail, max_age);
            detail.append("s)");
            Err(refusal(RefusalCode::CommitmentExpired, "commitment_expiry", detail))
        },
        NonceDecision::Replayed => Err(
            refusal(
                RefusalCode::NonceReplayed,
                "coord_nonce",
                owned("request nonce has already been seen by this node"),
            ),
        ),
        NonceDecision::AtCapacity => Err(
            refusal(
                RefusalCode::CoordNonceCapacity,
                "coord_nonce_capacity",
                owned("coordinator nonce cache is at capacity"),
            ),
        ),
    }
}

/// Accepting a claim does not move the time that expiries are held against.
pub proof fn acceptance_keeps_time(log: NonceLogView, claim: NonceClaim, after: NonceLogView)
    requires
        log.claimed(claim, after),
    ensures
        after.effective_now(claim.now) == log.effective_now(claim.now),
{
    if log.decision(claim) == NonceDecision::Accepted && after.high_water != log.high_water {
        let live = log.live(claim.now, claim.mono_now);
        let k = choose|k: Seq<char>|
            log.entries.contains_key(k) && !live.contains_key(k) && (
            #[trigger] log.entries[k]).expiry == after.high_water;
        assert(!nonce_live(log.entries[k], log.effective_now(claim.now), claim.mono_now));
    }
}

/// The whole entrance. A request that passes has consumed its nonce; the answer is the
/// time that its expiry was held against and, for a spend on a node with peers, the
/// deadline fixed for its carrier. A refused one has changed nothing.
pub fn verify_coord_auth(
    coordinator_auth: &Vec<u8>,
    max_age: u64,
    request: &CoordRequest,
    now: u64,
    nonces: &mut NonceLog,
    mono_now: Option<u64>,
) -> (out: Result<(u64, Option<u64>), SignResponse>)
    ensures
        ({
            let claim = request.claim(now, max_age, mono_now);
            let bad_signature = signature_refusal(
                request.digest,
                request.coord_sig@,
                coordinator_auth@,
            );
            match out {
                Ok((effective_now, deadline)) => {
                    &&& bad_signature is None
                    &&& old(nonces)@.decision(claim) == NonceDecision::Accepted
                    &&& effective_now == old(nonces)@.effective_now(now)
                    &&& old(nonces)@.deadline_for(claim) == Some(deadline)
                    &&& old(nonces)@.claimed(claim, final(nonces)@)
                },
                Err(r) => {
                    &&& final(nonces)@ == old(nonces)@
                    &&& Some(r@) == match bad_signature {
                        Some(b) => Some(b),
                        None => decision_refusal(
                            old(nonces)@.decision(claim),
                            request.expiry,
                            max_age,
                        ),
                    }
                },
            }
        }),
{
    if let Err(r) = verify_coord_signature(coordinator_auth, &request.digest, request.coord_sig) {
        return Err(r);
    }
    let ghost before = nonces@;
    let ghost claim = request.claim(now, max_age, mono_now);
    let decision = nonces.check_and_record(
        request.nonce,
        request.expiry,
        now,
        max_age,
        mono_now,
        request.spend && mono_now.is_some(),
    );
    if let Err(r) = decision_response(decision, request.expiry, max_age) {
        return Err(r);
    }
    proof {
        acceptance_keeps_time(before, claim, nonces@);
    }
    Ok((nonces.effective_now(now), nonces.carrier_deadline(request.nonce)))
}

} // verus!
