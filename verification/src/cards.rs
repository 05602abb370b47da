//! The membership card: the system's own record of a confirmed membership,
//! with a lifecycle independent of the upstream platform's billing cycle.
use vstd::prelude::*;

verus! {

/// How many days a newly issued or re-verified card stays valid.
pub const EXPIRATION_EXTENSION_DAYS: i64 = 30;

/// How many consecutive failed re-verifications expire a card.
pub const FAILURE_THRESHOLD: i32 = 3;

/// How many hours pass between re-verifications of one card.
pub const REVERIFICATION_INTERVAL_HOURS: i64 = 24;

/// Seconds in a day.
pub const SECONDS_PER_DAY: i64 = 86400;

/// Seconds in the re-verification interval.
pub const REVERIFICATION_INTERVAL_SECONDS: i64 = 86400;

/// The lifecycle states of a card. Only `Active` can transition; the others
/// are terminal. `Deleted` marks a card superseded by a newer one for the
/// same issuer and member.
#[derive(Debug, Clone, Copy, PartialEq, Eq, Structural)]
pub enum CardStatus {
    Active,
    Expired,
    Revoked,
    Suspended,
    Deleted,
}

/// A membership card row.
#[derive(Debug)]
pub struct MembershipCard {
    pub id: u64,
    pub issuer_id: u64,
    pub member_id: u64,
    pub membership_level_label: String,
    pub membership_confirmed_at: i64,
    pub verification_comment_id: String,
    pub verification_video_id: String,
    pub snapshot_json: String,
    pub status: CardStatus,
    pub expires_at: Option<i64>,
    pub last_verified_at: Option<i64>,
    pub verification_failures: i32,
    pub deleted_at: Option<i64>,
    pub issued_at: i64,
    pub wallet_transaction_id: Option<String>,
    pub wallet_qr_code: Option<String>,
    pub wallet_deep_link: Option<String>,
    pub wallet_cid: Option<String>,
    pub wallet_scanned_at: Option<i64>,
}

/// What a new card is made from.
#[derive(Debug)]
pub struct CreateCardData {
    pub issuer_id: u64,
    pub member_id: u64,
    pub membership_level_label: String,
    pub membership_confirmed_at: i64,
    pub verification_comment_id: String,
    pub verification_video_id: String,
    pub snapshot_json: String,
}

/// Whether a card counts as active and unexpired at a moment: the one kind of
/// card of which each issuer/member pair may hold at most one.
pub open spec fn active_unexpired(c: MembershipCard, now: i64) -> bool {
    &&& c.status is Active
    &&& match c.expires_at {
        Some(e) => e > now,
        None => true,
    }
}

/// Copies a string.
pub fn dup_string(s: &String) -> (r: String)
    ensures
        r == s,
{
    s.clone()
}

/// Copies an optional string.
pub fn dup_opt_string(s: &Option<String>) -> (r: Option<String>)
    ensures
        r == s,
{
    match s {
        Some(x) => Some(x.clone()),
        None => None,
    }
}

impl MembershipCard {
    /// Whether the card's expiry, if any, lies in the past.
    pub fn is_expired(&self, now: i64) -> (r: bool)
        ensures
            r == match self.expires_at {
                Some(e) => e < now,
                None => false,
            },
    {
        match self.expires_at {
            Some(e) => e < now,
            None => false,
        }
    }

    /// A field-for-field copy of the card.
    pub fn duplicate(&self) -> (r: MembershipCard)
        ensures
            r == *self,
    {
        MembershipCard {
            id: self.id,
            issuer_id: self.issuer_id,
            member_id: self.member_id,
            membership_level_label: dup_string(&self.membership_level_label),
            membership_confirmed_at: self.membership_confirmed_at,
            verification_comment_id: dup_string(&self.verification_comment_id),
            verification_video_id: dup_string(&self.verification_video_id),
            snapshot_json: dup_string(&self.snapshot_json),
            status: self.status,
            expires_at: self.expires_at,
            last_verified_at: self.last_verified_at,
            verification_failures: self.verification_failures,
            deleted_at: self.deleted_at,
            issued_at: self.issued_at,
            wallet_transaction_id: dup_opt_string(&self.wallet_transaction_id),
            wallet_qr_code: dup_opt_string(&self.wallet_qr_code),
            wallet_deep_link: dup_opt_string(&self.wallet_deep_link),
            wallet_cid: dup_opt_string(&self.wallet_cid),
            wallet_scanned_at: self.wallet_scanned_at,
        }
    }
}

} // verus!
