//! Verification of a presented card QR payload against the card store: the
//! payload names a card; the card's lifecycle state decides the verdict.
use vstd::prelude::*;

use crate::cards::{CardStatus, MembershipCard};
use crate::issuers::{CardIssuer, IssuerStore};
use crate::store::{has_card, store_wf, CardStore};
use crate::strutil;
use crate::wallet::json_string_field;
use vstd::string::StringExecFns;

verus! {

#[derive(Debug, Clone, PartialEq, Eq)]
pub enum VerificationError {
    IssuerNotFound,
}

/// The payload carried by a card QR code: the card it names.
#[derive(Debug, PartialEq, Eq, Structural, Clone, Copy)]
pub struct QrPayload {
    pub card_id: u64,
}

/// The key under which the payload names the card.
pub open spec fn card_id_key() -> Seq<char> {
    seq!['c', 'a', 'r', 'd', '_', 'i', 'd']
}

/// What parsing a QR payload yields: the numeric card identifier at the
/// `card_id` key of the JSON text, when there is one.
pub open spec fn qr_payload_of(s: Seq<char>) -> Option<int> {
    match json_string_field(s, card_id_key()) {
        Some(t) => if t.len() > 0 && strutil::all_digits(t) && strutil::dec_value(t) <= u64::MAX {
            Some(strutil::dec_value(t))
        } else {
            None
        },
        None => None,
    }
}

/// Parses a QR payload.
pub fn parse_qr_payload(s: &str) -> (r: Option<QrPayload>)
    ensures
        match r {
            Some(p) => qr_payload_of(s@) == Some(p.card_id as int),
            None => qr_payload_of(s@) is None,
        },
{
    proof {
        reveal_strlit("card_id");
        assert("card_id"@ =~= card_id_key());
    }
    match crate::wallet::json_str_field(s, "card_id") {
        Some(t) => match strutil::parse_u64(t.as_str()) {
            Some(n) => Some(QrPayload { card_id: n }),
            None => None,
        },
        None => None,
    }
}

/// The verdict on a presented payload.
#[derive(Debug)]
pub enum VerificationResult {
    Success { card: MembershipCard, issuer: CardIssuer },
    CardNotFound { card_id: u64 },
    CardExpired { card: MembershipCard, issuer: CardIssuer },
    CardRevoked { card: MembershipCard, issuer: CardIssuer },
    CardSuspended { card: MembershipCard, issuer: CardIssuer },
    InvalidPayload { error: String },
}

impl VerificationResult {
    /// The verdict as a short label for the audit log.
    pub fn result_type(&self) -> (r: &'static str)
        ensures
            self is Success ==> r@ == "success"@,
            self is CardNotFound ==> r@ == "card_not_found"@,
            self is CardExpired ==> r@ == "card_expired"@,
            self is CardRevoked ==> r@ == "card_revoked"@,
            self is CardSuspended ==> r@ == "card_suspended"@,
            self is InvalidPayload ==> r@ == "invalid_payload"@,
    {
        match self {
            VerificationResult::Success { .. } => "success",
            VerificationResult::CardNotFound { .. } => "card_not_found",
            VerificationResult::CardExpired { .. } => "card_expired",
            VerificationResult::CardRevoked { .. } => "card_revoked",
            VerificationResult::CardSuspended { .. } => "card_suspended",
            VerificationResult::InvalidPayload { .. } => "invalid_payload",
        }
    }

    /// The card the verdict is about, when it names one.
    pub fn card_id(&self) -> (r: Option<u64>)
        ensures
            match self {
                VerificationResult::Success { card, .. } => r == Some(card.id),
                VerificationResult::CardNotFound { card_id } => r == Some(*card_id),
                VerificationResult::CardExpired { card, .. } => r == Some(card.id),
                VerificationResult::CardRevoked { card, .. } => r == Some(card.id),
                VerificationResult::CardSuspended { card, .. } => r == Some(card.id),
                VerificationResult::InvalidPayload { .. } => r is None,
            },
    {
        match self {
            VerificationResult::Success { card, .. } => Some(card.id),
            VerificationResult::CardNotFound { card_id } => Some(*card_id),
            VerificationResult::CardExpired { card, .. } => Some(card.id),
            VerificationResult::CardRevoked { card, .. } => Some(card.id),
            VerificationResult::CardSuspended { card, .. } => Some(card.id),
            VerificationResult::InvalidPayload { .. } => None,
        }
    }
}

/// The verdict a card's state earns at a moment: an Active card passes
/// unless its expiry has gone by; a superseded card no longer resolves.
pub open spec fn status_verdict(c: MembershipCard, now: i64) -> CardStatus {
    match c.status {
        CardStatus::Active => if c.expires_at matches Some(e) && e < now {
            CardStatus::Expired
        } else {
            CardStatus::Active
        },
        s => s,
    }
}

/// Whether no issuer in the store carries the identifier.
pub open spec fn no_issuer_with(issuers: &IssuerStore, issuer_id: u64) -> bool {
    forall|j: int| 0 <= j < issuers.issuers@.len() ==> (#[trigger] issuers.issuers@[j]).id
        != issuer_id
}

/// Verifies a QR payload against the stores: parses it, resolves the card
/// and its issuer, and classifies the card's state. An unreadable payload
/// and an unknown card are verdicts, not errors; the one error arises
/// exactly when the named card exists but its issuer is gone from the
/// issuer store.
pub fn verify_qr_payload(
    cards: &CardStore,
    issuers: &IssuerStore,
    qr_payload: &str,
    now: i64,
) -> (r: Result<VerificationResult, VerificationError>)
    requires
        store_wf(cards),
    ensures
        qr_payload_of(qr_payload@) is None <==> (r matches Ok(v) && v is InvalidPayload),
        match qr_payload_of(qr_payload@) {
            None => true,
            Some(id) => {
                &&& (r is Err <==> exists|i: int|
                    0 <= i < cards.cards@.len() && (#[trigger] cards.cards@[i]).id == id as u64
                        && no_issuer_with(issuers, cards.cards@[i].issuer_id))
                &&& (r matches Err(e) ==> e is IssuerNotFound)
                &&& (r matches Ok(v) ==> match v {
                    VerificationResult::CardNotFound { card_id } => card_id == id as u64
                        && !has_card(cards.cards@, id as u64),
                    VerificationResult::Success { card, issuer } => card.id == id as u64
                        && status_verdict(card, now) is Active && exists_card(cards, card)
                        && issuer_of(issuers, issuer, card.issuer_id),
                    VerificationResult::CardExpired { card, issuer } => card.id == id as u64 && (
                    status_verdict(card, now) is Expired || card.status is Deleted)
                        && exists_card(cards, card) && issuer_of(issuers, issuer, card.issuer_id),
                    VerificationResult::CardRevoked { card, issuer } => card.id == id as u64
                        && status_verdict(card, now) is Revoked && exists_card(cards, card)
                        && issuer_of(issuers, issuer, card.issuer_id),
                    VerificationResult::CardSuspended { card, issuer } => card.id == id as u64
                        && status_verdict(card, now) is Suspended && exists_card(cards, card)
                        && issuer_of(issuers, issuer, card.issuer_id),
                    VerificationResult::InvalidPayload { .. } => false,
                })
            },
        },
{
    let payload = match parse_qr_payload(qr_payload) {
        Some(p) => p,
        None => {
            return Ok(
                VerificationResult::InvalidPayload { error: String::from_str("Invalid JSON") },
            );
        },
    };
    let card = match cards.find_by_id(payload.card_id) {
        Some(c) => c,
        None => {
            return Ok(VerificationResult::CardNotFound { card_id: payload.card_id });
        },
    };
    let ghost ci = choose|i: int|
        0 <= i < cards.cards@.len() && #[trigger] cards.cards@[i] == card;
    let issuer = match issuers.find_by_id(card.issuer_id) {
        Some(i) => i,
        None => {
            proof {
                assert(cards.cards@[ci].id == payload.card_id);
                assert(no_issuer_with(issuers, cards.cards@[ci].issuer_id));
            }
            return Err(VerificationError::IssuerNotFound);
        },
    };
    proof {
        assert forall|i: int|
            0 <= i < cards.cards@.len() && (#[trigger] cards.cards@[i]).id == payload.card_id
                implies !no_issuer_with(issuers, cards.cards@[i].issuer_id) by {
            if i != ci {
                assert(cards.cards@[i].id != cards.cards@[ci].id);
            }
            let j = choose|j: int|
                0 <= j < issuers.issuers@.len() && #[trigger] issuers.issuers@[j] == issuer;
            assert(issuers.issuers@[j].id == card.issuer_id);
        }
    }
    let verdict = match card.status {
        CardStatus::Active => {
            let lapsed = match card.expires_at {
                Some(e) => e < now,
                None => false,
            };
            if lapsed {
                VerificationResult::CardExpired { card, issuer }
            } else {
                VerificationResult::Success { card, issuer }
            }
        },
        CardStatus::Revoked => VerificationResult::CardRevoked { card, issuer },
        CardStatus::Expired => VerificationResult::CardExpired { card, issuer },
        CardStatus::Suspended => VerificationResult::CardSuspended { card, issuer },
        CardStatus::Deleted => VerificationResult::CardExpired { card, issuer },
    };
    Ok(verdict)
}

/// Whether the card is one of the store's.
pub open spec fn exists_card(cards: &CardStore, c: MembershipCard) -> bool {
    exists|i: int| 0 <= i < cards.cards@.len() && #[trigger] cards.cards@[i] == c
}

/// Whether the issuer is one of the store's, with the given identifier.
pub open spec fn issuer_of(issuers: &IssuerStore, issuer: CardIssuer, id: u64) -> bool {
    issuer.id == id && exists|i: int|
        0 <= i < issuers.issuers@.len() && #[trigger] issuers.issuers@[i] == issuer
}

} // verus!
