//! The wallet-compatible card payload of the earlier, self-signed card
//! generation: a canonical structure over the card's facts, signed with the
//! credential signer.
use vstd::prelude::*;

verus! {

/// The issuer block of a card payload.
#[derive(Debug)]
pub struct IssuerInfo {
    pub id: String,
    pub name: String,
    pub channel_id: String,
    pub handle: Option<String>,
}

/// The member block of a card payload.
#[derive(Debug)]
pub struct MemberInfo {
    pub display_name: String,
}

/// The membership block of a card payload.
#[derive(Debug)]
pub struct MembershipInfo {
    pub level: String,
    pub confirmed_at: i64,
    pub issued_at: i64,
}

/// The verification block of a card payload.
#[derive(Debug)]
pub struct VerificationInfo {
    pub video_id: String,
    pub comment_id: String,
}

/// A card payload ready for serialization and signing. The signature is
/// carried beside the payload and never serialized with it.
#[derive(Debug)]
pub struct MembershipCardPayload {
    pub card_id: String,
    pub issuer: IssuerInfo,
    pub member: MemberInfo,
    pub membership: MembershipInfo,
    pub verification: VerificationInfo,
    pub signature: Option<String>,
}

impl MembershipCardPayload {
    /// Assembles a payload from the card's parts, with no signature yet.
    pub fn new(
        card_id: String,
        issuer_id: String,
        issuer_name: String,
        issuer_channel_id: String,
        issuer_handle: Option<String>,
        member_display_name: String,
        membership_level: String,
        membership_confirmed_at: i64,
        issued_at: i64,
        verification_video_id: String,
        verification_comment_id: String,
    ) -> (r: MembershipCardPayload)
        ensures
            r.card_id == card_id,
            r.issuer.id == issuer_id,
            r.issuer.name == issuer_name,
            r.issuer.channel_id == issuer_channel_id,
            r.issuer.handle == issuer_handle,
            r.member.display_name == member_display_name,
            r.membership.level == membership_level,
            r.membership.confirmed_at == membership_confirmed_at,
            r.membership.issued_at == issued_at,
            r.verification.video_id == verification_video_id,
            r.verification.comment_id == verification_comment_id,
            r.signature is None,
    {
        MembershipCardPayload {
            card_id,
            issuer: IssuerInfo {
                id: issuer_id,
                name: issuer_name,
                channel_id: issuer_channel_id,
                handle: issuer_handle,
            },
            member: MemberInfo { display_name: member_display_name },
            membership: MembershipInfo {
                level: membership_level,
                confirmed_at: membership_confirmed_at,
                issued_at,
            },
            verification: VerificationInfo {
                video_id: verification_video_id,
                comment_id: verification_comment_id,
            },
            signature: None,
        }
    }
}

} // verus!
