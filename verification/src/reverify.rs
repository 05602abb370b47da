//! The background re-verification sweep: re-runs the membership proof
//! against already-issued active cards and drives the card store — extend on
//! success, count a failure otherwise, and force expiry once the failure
//! threshold is crossed. One card's failure never aborts the batch; it is
//! counted in the job statistics instead.
use vstd::prelude::*;

use crate::cards::{CardStatus, MembershipCard, EXPIRATION_EXTENSION_DAYS, FAILURE_THRESHOLD};
use crate::issuers::{membership_video_of, CardIssuer, ProofMethod};
use crate::store::{extended_card, failed_card, store_wf, with_status, CardStore};

verus! {

/// What one sweep counted.
#[derive(Debug, PartialEq, Eq, Structural)]
pub struct VerificationStats {
    pub total_checked: usize,
    pub still_members: usize,
    pub expired_memberships: usize,
    pub token_refresh_failures: usize,
    pub api_errors: usize,
}

/// How one card's re-verification ended.
#[derive(Debug, PartialEq, Eq, Structural, Clone, Copy)]
pub enum ReverifyOutcome {
    StillMember,
    MembershipExpired,
}

/// Why one card's re-verification could not run. Either way the batch goes
/// on.
#[derive(Debug, PartialEq, Eq, Clone)]
pub enum ReverifyError {
    TokenRefreshFailed,
    ApiError(String),
}

/// The probe the sweep runs for an issuer: the video-access check against
/// the members-only video where the issuer proves by video, the
/// comment-thread probe against the verification video otherwise.
pub fn reverification_probe(issuer: &CardIssuer) -> (r: (ProofMethod, String))
    ensures
        r.0 == issuer.verification_method,
        issuer.verification_method is Video ==> r.1@ == membership_video_of(issuer),
        issuer.verification_method is Comment ==> r.1@ == issuer.verification_video_id@,
{
    match issuer.verification_method {
        ProofMethod::Video => (ProofMethod::Video, issuer.membership_video_id()),
        ProofMethod::Comment => (
            ProofMethod::Comment,
            crate::cards::dup_string(&issuer.verification_video_id),
        ),
    }
}

/// A card as one re-verification pass leaves it: extended with the failure
/// count reset on success; one more failure on a miss, and forced Expired
/// once the count reaches the threshold.
pub open spec fn reverified_card(c: MembershipCard, still_member: bool, now: i64) -> MembershipCard {
    if still_member {
        extended_card(c, EXPIRATION_EXTENSION_DAYS as i64, now)
    } else {
        if failed_card(c, now).verification_failures >= FAILURE_THRESHOLD {
            with_status(failed_card(c, now), CardStatus::Expired)
        } else {
            failed_card(c, now)
        }
    }
}

/// Applies one re-verification verdict to a card: a success extends the
/// card's expiry and resets its failures; a miss counts one failure and,
/// once the threshold is reached, expires the card. A missing identifier
/// changes nothing.
pub fn apply_reverification(cards: &mut CardStore, card_id: u64, still_member: bool, now: i64) -> (
    r: ReverifyOutcome)
    requires
        store_wf(old(cards)),
        0 <= now <= i64::MAX - 36500 * 86400,
        forall|i: int|
            0 <= i < old(cards).cards@.len() && (#[trigger] old(cards).cards@[i]).id == card_id
                ==> old(cards).cards@[i].verification_failures < i32::MAX,
    ensures
        store_wf(final(cards)),
        final(cards).cards@.len() == old(cards).cards@.len(),
        final(cards).next_id == old(cards).next_id,
        forall|i: int|
            0 <= i < old(cards).cards@.len() ==> final(cards).cards@[i] == (if (#[trigger] old(
                cards,
            ).cards@[i]).id == card_id {
                reverified_card(old(cards).cards@[i], still_member, now)
            } else {
                old(cards).cards@[i]
            }),
        r is StillMember <==> still_member,
{
    if still_member {
        cards.extend_expiration(card_id, EXPIRATION_EXTENSION_DAYS, now);
        ReverifyOutcome::StillMember
    } else {
        let ghost before = cards.cards@;
        let failures = cards.increment_verification_failure(card_id, now);
        let ghost mid = cards.cards@;
        match failures {
            Some(n) => {
                if n >= FAILURE_THRESHOLD {
                    cards.set_status(card_id, CardStatus::Expired);
                    proof {
                        assert forall|i: int|
                            0 <= i < before.len() implies cards.cards@[i] == (if before[i].id
                            == card_id {
                            reverified_card(before[i], still_member, now)
                        } else {
                            before[i]
                        }) by {
                            if before[i].id == card_id {
                                assert(mid[i] == failed_card(before[i], now));
                                assert(n == before[i].verification_failures + 1);
                                assert(cards.cards@[i] == with_status(
                                    failed_card(before[i], now),
                                    CardStatus::Expired,
                                ));
                            } else {
                                assert(mid[i] == before[i]);
                            }
                        }
                    }
                } else {
                    proof {
                        assert forall|i: int|
                            0 <= i < before.len() implies cards.cards@[i] == (if before[i].id
                            == card_id {
                            reverified_card(before[i], still_member, now)
                        } else {
                            before[i]
                        }) by {
                            if before[i].id == card_id {
                                assert(n == before[i].verification_failures + 1);
                            }
                        }
                    }
                }
            },
            None => {},
        }
        ReverifyOutcome::MembershipExpired
    }
}

/// Counts one card's outcome into the sweep statistics: a success, a lost
/// membership, a token-refresh failure or an upstream error, each in its own
/// column. The error never propagates; the batch goes on.
pub fn record_outcome(
    stats: &mut VerificationStats,
    outcome: &Result<ReverifyOutcome, ReverifyError>,
)
    requires
        old(stats).still_members < usize::MAX,
        old(stats).expired_memberships < usize::MAX,
        old(stats).token_refresh_failures < usize::MAX,
        old(stats).api_errors < usize::MAX,
    ensures
        final(stats).total_checked == old(stats).total_checked,
        final(stats).still_members == old(stats).still_members + (if outcome
             matches Ok(ReverifyOutcome::StillMember) {
            1int
        } else {
            0int
        }),
        final(stats).expired_memberships == old(stats).expired_memberships + (if outcome
             matches Ok(ReverifyOutcome::MembershipExpired) {
            1int
        } else {
            0int
        }),
        final(stats).token_refresh_failures == old(stats).token_refresh_failures + (if outcome
             matches Err(ReverifyError::TokenRefreshFailed) {
            1int
        } else {
            0int
        }),
        final(stats).api_errors == old(stats).api_errors + (if outcome matches Err(
            ReverifyError::ApiError(_),
        ) {
            1int
        } else {
            0int
        }),
{
    match outcome {
        Ok(ReverifyOutcome::StillMember) => {
            stats.still_members = stats.still_members + 1;
        },
        Ok(ReverifyOutcome::MembershipExpired) => {
            stats.expired_memberships = stats.expired_memberships + 1;
        },
        Err(ReverifyError::TokenRefreshFailed) => {
            stats.token_refresh_failures = stats.token_refresh_failures + 1;
        },
        Err(ReverifyError::ApiError(_)) => {
            stats.api_errors = stats.api_errors + 1;
        },
    }
}

/// Law (failure escalation): three consecutive failed re-verifications of an
/// Active card with no prior failures leave it with three counted failures
/// and status Expired.
pub proof fn lemma_failure_escalation(c0: MembershipCard, n1: i64, n2: i64, n3: i64)
    requires
        c0.status is Active,
        c0.verification_failures == 0,
    ensures
        ({
            let c3 = reverified_card(
                reverified_card(reverified_card(c0, false, n1), false, n2),
                false,
                n3,
            );
            c3.verification_failures == 3 && c3.status is Expired
        }),
{
}

/// Law (reset on success): a successful re-verification resets the failure
/// count to zero whatever it was, and pushes the expiry out.
pub proof fn lemma_reverify_success_resets(c: MembershipCard, now: i64)
    ensures
        reverified_card(c, true, now).verification_failures == 0,
        reverified_card(c, true, now).expires_at == Some(
            (now + EXPIRATION_EXTENSION_DAYS * 86400) as i64,
        ),
{
}

} // verus!
