//! The human-only elevation contract.
//!
//! This module defines the *types* that make elevation safe, not the password
//! verification itself. The rules encoded here are:
//!
//! - An [`ElevationRequest`] describes exactly what a command wants to do (its
//!   digest, effect summary, and requested capability delta). It never
//!   contains a password field.
//! - A [`HumanApprovalAuthority`] verifies a human. Its trait method takes no
//!   password and returns no proof: the password exists only inside the
//!   trusted verification path.
//! - An [`ApprovalLease`] is minted **only by the broker** after a successful
//!   human verification, and only for the request that was verified. The
//!   agent-facing API cannot construct, submit, or widen a lease.
//!
//! Together these force the invariant: *the AI can request elevation but can
//! never read, submit, derive, replay, or widen the human's authority.*
//!
//! Times are nanoseconds of one monotonic clock, which the caller reads.

use vstd::prelude::*;
use crate::capability::{CapabilityGrant, GrantModel};
use crate::shell_ir::{CapabilityDelta, CommandDigest, EffectSummary};
use crate::text;

verus! {

/// A request for a scoped, temporary elevation of a session's authority.
///
/// It is a one-way description handed from the executor to the authority,
/// never a capability object.
#[derive(Debug)]
pub struct ElevationRequest {
    /// The session requesting elevation.
    pub session_id: u64,
    /// Canonical digest of the exact plan being approved.
    pub digest: CommandDigest,
    /// Redacted effect summary (paths, hosts, secret names, never values).
    pub summary: EffectSummary,
    /// The capability delta the plan needs beyond the base grant.
    pub requested: CapabilityDelta,
    /// How long a minted lease may live, in nanoseconds.
    pub expires_after: u64,
}

/// What an agent may observe about a pending elevation.
///
/// This is the only approval surface visible to the agent and to UI renderers:
/// a redacted request plus a stable request id. It contains no password, no
/// proof, and no lease.
#[derive(Clone, Debug, PartialEq, Eq)]
pub struct PendingApproval {
    /// Stable request id the agent can reference when waiting.
    pub request_id: u64,
    /// The session that is parked.
    pub session_id: u64,
    /// Redacted effect summary for display.
    pub summary: EffectSummary,
    /// Hex digest of the exact plan awaiting approval.
    pub digest_hex: String,
}

/// Errors from the elevation path.
#[derive(Debug, PartialEq, Eq)]
pub enum ElevationError {
    /// The human verification failed (wrong password, lockout, or timeout).
    VerificationFailed,
    /// The authority could not be reached or decided.
    AuthorityUnavailable(String),
    /// The request was denied by the human.
    Denied,
    /// The lease does not match the request it was minted for.
    LeaseMismatch,
    /// The lease has expired.
    LeaseExpired,
    /// The lease was revoked.
    Revoked,
    /// The lease would grant more than was requested and approved.
    LeaseScopeExceeded,
    /// The session is not eligible for elevation.
    SessionNotEligible,
}

impl ElevationError {
    /// The message of an error.
    pub open spec fn message_text(self) -> Seq<char> {
        match self {
            ElevationError::VerificationFailed => "human verification failed"@,
            ElevationError::AuthorityUnavailable(reason) => "approval authority unavailable: "@
                + reason@,
            ElevationError::Denied => "elevation denied by the human"@,
            ElevationError::LeaseMismatch => "lease does not match the request"@,
            ElevationError::LeaseExpired => "lease expired"@,
            ElevationError::Revoked => "lease revoked"@,
            ElevationError::LeaseScopeExceeded => "lease scope exceeds the approved request"@,
            ElevationError::SessionNotEligible => "session not eligible for elevation"@,
        }
    }

    /// A message for people.
    pub fn message(&self) -> (r: String)
        ensures
            r@ == self.message_text(),
    {
        match self {
            ElevationError::VerificationFailed => "human verification failed".to_owned(),
            ElevationError::AuthorityUnavailable(reason) => text::joined(
                "approval authority unavailable: ",
                reason.as_str(),
            ),
            ElevationError::Denied => "elevation denied by the human".to_owned(),
            ElevationError::LeaseMismatch => "lease does not match the request".to_owned(),
            ElevationError::LeaseExpired => "lease expired".to_owned(),
            ElevationError::Revoked => "lease revoked".to_owned(),
            ElevationError::LeaseScopeExceeded => {
                "lease scope exceeds the approved request".to_owned()
            },
            ElevationError::SessionNotEligible => "session not eligible for elevation".to_owned(),
        }
    }
}

/// A short-lived, action-bound, capability-scoped grant minted by the broker
/// after a successful human verification.
///
/// Fields are private and there is deliberately **no public constructor**: the
/// only way to obtain a lease is through the broker's
/// `approve_with_authority` path.
#[derive(Debug)]
pub struct ApprovalLease {
    lease_id: u128,
    session_id: u64,
    digest: CommandDigest,
    grant: CapabilityGrant,
    expires_at: u64,
}

/// What an [`ApprovalLease`] denotes.
pub struct LeaseModel {
    /// The lease.
    pub lease_id: u128,
    /// The session it was minted for.
    pub session_id: u64,
    /// The plan it was minted for.
    pub digest: Seq<u8>,
    /// What it authorizes.
    pub grant: GrantModel,
    /// When it ends.
    pub expires_at: u64,
}

impl View for ApprovalLease {
    type V = LeaseModel;

    closed spec fn view(&self) -> LeaseModel {
        LeaseModel {
            lease_id: self.lease_id,
            session_id: self.session_id,
            digest: self.digest@,
            grant: self.grant@,
            expires_at: self.expires_at,
        }
    }
}

/// Why a lease does not authorize a session to run a plan at some time, if it
/// does not: any mismatch of session, plan or time rejects it.
pub open spec fn lease_fault(
    lease: LeaseModel,
    session_id: u64,
    digest: Seq<u8>,
    now: u64,
) -> Option<ElevationError> {
    if lease.session_id != session_id || lease.digest != digest {
        Some(ElevationError::LeaseMismatch)
    } else if now >= lease.expires_at {
        Some(ElevationError::LeaseExpired)
    } else {
        None
    }
}

impl ApprovalLease {
    /// Construct a lease. **Broker-internal only.**
    pub(crate) fn mint(
        lease_id: u128,
        session_id: u64,
        digest: CommandDigest,
        grant: CapabilityGrant,
        now: u64,
        expires_after: u64,
    ) -> (r: Self)
        requires
            now + expires_after <= u64::MAX,
        ensures
            r@ == (LeaseModel {
                lease_id,
                session_id,
                digest: digest@,
                grant: grant@,
                expires_at: (now + expires_after) as u64,
            }),
    {
        ApprovalLease { lease_id, session_id, digest, grant, expires_at: now + expires_after }
    }

    /// The lease identifier, for audit and revocation references.
    pub fn lease_id(&self) -> (r: u128)
        ensures
            r == self@.lease_id,
    {
        self.lease_id
    }

    /// Validate that this lease authorizes `session_id` running `digest` at
    /// the time `now`.
    ///
    /// This is the fail-closed check: any mismatch of session, digest, or
    /// expiry rejects the lease. The grant itself is *not* compared here.
    ///
    /// # Errors
    ///
    /// Returns why the lease does not.
    pub fn validate_for(&self, session_id: u64, digest: &CommandDigest, now: u64) -> (r: Result<
        (),
        ElevationError,
    >)
        ensures
            match lease_fault(self@, session_id, digest@, now) {
                Some(fault) => r == Err::<(), ElevationError>(fault),
                None => r is Ok,
            },
    {
        if self.session_id != session_id {
            return Err(ElevationError::LeaseMismatch);
        }
        if self.digest != *digest {
            return Err(ElevationError::LeaseMismatch);
        }
        if now >= self.expires_at {
            return Err(ElevationError::LeaseExpired);
        }
        Ok(())
    }

    /// Whether this lease has expired by the time `now`.
    pub fn is_expired(&self, now: u64) -> (r: bool)
        ensures
            r == (now >= self@.expires_at),
    {
        now >= self.expires_at
    }
}

/// A lease authorizes one session and one plan only.
pub proof fn leases_are_bound_to_one_action(
    lease: LeaseModel,
    session_a: u64,
    digest_a: Seq<u8>,
    now_a: u64,
    session_b: u64,
    digest_b: Seq<u8>,
    now_b: u64,
)
    requires
        lease_fault(lease, session_a, digest_a, now_a) is None,
        lease_fault(lease, session_b, digest_b, now_b) is None,
    ensures
        session_a == session_b,
        digest_a == digest_b,
{
}

/// An expired lease stays expired.
pub proof fn expiry_is_final(
    lease: LeaseModel,
    session_id: u64,
    digest: Seq<u8>,
    now: u64,
    later: u64,
)
    requires
        now >= lease.expires_at,
        later >= now,
    ensures
        lease_fault(lease, session_id, digest, later) is Some,
{
}

/// The trusted callback that verifies a human for one elevation request.
///
/// No password parameter crosses this boundary in either direction, and no
/// proof, token, or lease is returned to the caller. The broker mints the
/// lease *after* this callback succeeds.
pub trait HumanApprovalAuthority {
    /// Verify that a human approved this exact request.
    ///
    /// # Errors
    ///
    /// Returns [`ElevationError::VerificationFailed`] or
    /// [`ElevationError::Denied`] when the human cannot be verified or
    /// declined.
    fn verify_human(&self, request: &ElevationRequest) -> Result<(), ElevationError>;
}

/// An authority that always denies. Used as the default when no trusted
/// authority is wired, so elevation never silently succeeds.
#[derive(Debug)]
pub struct DenyAllAuthority;

impl HumanApprovalAuthority for DenyAllAuthority {
    fn verify_human(&self, _request: &ElevationRequest) -> (r: Result<(), ElevationError>)
        ensures
            r == Err::<(), ElevationError>(ElevationError::Denied),
    {
        Err(ElevationError::Denied)
    }
}

} // verus!
