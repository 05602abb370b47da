//! The issuance orchestrator: one user-facing operation, in strict order,
//! each stage a hard stop on failure, so that no partial card is ever stored.
//! The wallet health probe runs before any proof work; the proof check runs
//! before the member upsert and the duplicate check; the wallet QR is minted
//! before the card row exists, because an orphaned wallet QR is harmless and
//! an orphaned card is not.
//!
//! Each outside call stands between two functions here: one decides what to
//! ask, the next takes the answer and every later decision is verified for
//! every possible answer.
use vstd::prelude::*;

use crate::cards::{active_unexpired, CreateCardData, MembershipCard};
use crate::issuers::{membership_video_of, CardIssuer, IssuerStore, ProofMethod};
use crate::members::{has_member_key, member_store_wf, CreateMemberData, Member, MemberStore};
use crate::membership::{
    CommentVerificationError, CommentVerificationResult, IndeterminateReason, ProofEvidence,
    ProofOutcome,
};
use crate::store::{store_wf, superseded_card, CardStore};
use crate::strutil;
use crate::wallet::{sanitized_name, WalletQrError, WalletQrResponse};
use vstd::string::StringExecFns;

verus! {

#[derive(Debug)]
pub enum CardIssuanceError {
    MembershipVerificationFailed(String),
    MembershipCheck(IndeterminateReason),
    WalletQrGeneration(WalletQrError),
    WalletServiceUnavailable,
    IssuerNotFound,
    DuplicateCard(String),
    MissingVcUid,
    IssuerApiNotConfigured,
}

/// A request to issue a new membership card.
#[derive(Debug)]
pub struct IssueCardRequest {
    pub issuer_id: u64,
    pub member_youtube_user_id: String,
    pub member_display_name: String,
    pub member_avatar_url: Option<String>,
    pub comment_link_or_id: Option<String>,
    pub session_started_at: i64,
    pub access_token: String,
}

/// The outcome of a completed issuance.
#[derive(Debug)]
pub struct IssueCardResult {
    pub card: MembershipCard,
    pub member: Member,
}

/// The proof check the caller must run next: which method, against which
/// video, with which token.
#[derive(Debug)]
pub struct ProofTask {
    pub method: ProofMethod,
    pub video_id: String,
    pub access_token: String,
}

/// The wallet mint the caller must run next: the credential type and the one
/// subject field it carries.
#[derive(Debug)]
pub struct MintTask {
    pub vc_uid: String,
    pub field_ename: String,
    pub display_name: String,
}

/// Opening check: issuance needs a configured wallet backend before anything
/// else; with one, the caller must probe its health next.
pub fn issue_begin(wallet_configured: bool) -> (r: Result<(), CardIssuanceError>)
    ensures
        wallet_configured <==> r is Ok,
        !wallet_configured ==> (r matches Err(e) && e is IssuerApiNotConfigured),
{
    if wallet_configured {
        Ok(())
    } else {
        Err(CardIssuanceError::IssuerApiNotConfigured)
    }
}

/// Decides what follows the wallet health probe: an unavailable wallet
/// stops the operation before any proof work is spent; otherwise the issuer
/// is resolved and the proof task laid out.
pub fn issue_after_health(healthy: bool, issuers: &IssuerStore, request: &IssueCardRequest) -> (r:
    Result<(CardIssuer, ProofTask), CardIssuanceError>)
    requires
        crate::issuers::issuer_store_wf(issuers),
    ensures
        !healthy ==> (r matches Err(e) && e is WalletServiceUnavailable),
        healthy ==> (r is Ok <==> exists|i: int|
            0 <= i < issuers.issuers@.len() && (#[trigger] issuers.issuers@[i]).id
                == request.issuer_id && issuers.issuers@[i].is_active),
        healthy ==> (r matches Err(e) ==> e is IssuerNotFound),
        r matches Ok(p) ==> p.0.id == request.issuer_id && p.0.is_active && (exists|i: int|
            0 <= i < issuers.issuers@.len() && #[trigger] issuers.issuers@[i] == p.0)
            && p.1.method == p.0.verification_method && p.1.video_id@ == membership_video_of(&p.0)
            && p.1.access_token@ == request.access_token@,
{
    if !healthy {
        return Err(CardIssuanceError::WalletServiceUnavailable);
    }
    let issuer = match issuers.find_by_id(request.issuer_id) {
        Some(c) => c,
        None => {
            return Err(CardIssuanceError::IssuerNotFound);
        },
    };
    if !issuer.is_active {
        proof {
            let i = choose|i: int|
                0 <= i < issuers.issuers@.len() && #[trigger] issuers.issuers@[i] == issuer;
            assert forall|j: int|
                0 <= j < issuers.issuers@.len() && (#[trigger] issuers.issuers@[j]).id
                    == request.issuer_id implies !issuers.issuers@[j].is_active by {
                if j != i {
                    assert(issuers.issuers@[j].id != issuers.issuers@[i].id);
                }
            }
        }
        return Err(CardIssuanceError::IssuerNotFound);
    }
    let video_id = issuer.membership_video_id();
    let method = issuer.verification_method;
    let access_token = crate::cards::dup_string(&request.access_token);
    Ok((issuer, ProofTask { method, video_id, access_token }))
}

/// Folds the three proof outcome classes into the issuance error space: a
/// terminal negative becomes a verification failure, an indeterminate answer
/// is surfaced for retry, and confirmation carries the evidence on.
pub fn proof_to_issue(outcome: ProofOutcome) -> (r: Result<ProofEvidence, CardIssuanceError>)
    ensures
        match outcome {
            ProofOutcome::Confirmed(ev) => r matches Ok(e2) && e2 == ev,
            ProofOutcome::NotAMember => r matches Err(e)
                && e matches CardIssuanceError::MembershipVerificationFailed(m) && m@
                == "Unable to confirm active membership for this channel"@,
            ProofOutcome::Indeterminate(w) => r matches Err(e)
                && e matches CardIssuanceError::MembershipCheck(w2) && w2 == w,
        },
{
    match outcome {
        ProofOutcome::Confirmed(ev) => Ok(ev),
        ProofOutcome::NotAMember => Err(
            CardIssuanceError::MembershipVerificationFailed(
                String::from_str("Unable to confirm active membership for this channel"),
            ),
        ),
        ProofOutcome::Indeterminate(why) => Err(CardIssuanceError::MembershipCheck(why)),
    }
}

/// Folds a comment-proof evaluation into the issuance error space, keeping
/// the specific reason — wrong video, ownership mismatch, missing comment —
/// so the user can self-correct, and surfacing upstream trouble for retry.
pub fn comment_proof_to_issue(eval: Result<CommentVerificationResult, CommentVerificationError>)
    -> (r: Result<ProofEvidence, CardIssuanceError>)
    ensures
        match eval {
            Ok(v) => r matches Ok(ev) && ev.proof_reference == v.comment_id && ev.video_id
                == v.video_id && ev.confirmed_at == v.published_at,
            Err(e) => match e {
                CommentVerificationError::ApiError(m) => r matches Err(e2)
                    && e2 matches CardIssuanceError::MembershipCheck(w)
                    && w matches IndeterminateReason::UpstreamError(m2) && m2 == m,
                _ => r matches Err(e2) && e2 is MembershipVerificationFailed,
            },
        },
{
    match eval {
        Ok(v) => Ok(
            ProofEvidence {
                proof_reference: v.comment_id,
                video_id: v.video_id,
                confirmed_at: v.published_at,
            },
        ),
        Err(CommentVerificationError::ApiError(m)) => Err(
            CardIssuanceError::MembershipCheck(IndeterminateReason::UpstreamError(m)),
        ),
        Err(CommentVerificationError::CommentNotFound) => Err(
            CardIssuanceError::MembershipVerificationFailed(String::from_str("Comment not found")),
        ),
        Err(CommentVerificationError::CommentOwnershipMismatch) => Err(
            CardIssuanceError::MembershipVerificationFailed(
                String::from_str("Comment does not belong to authenticated user"),
            ),
        ),
        Err(CommentVerificationError::WrongVideo) => Err(
            CardIssuanceError::MembershipVerificationFailed(
                String::from_str("Comment is not on the verification video"),
            ),
        ),
        Err(CommentVerificationError::CommentTooOld) => Err(
            CardIssuanceError::MembershipVerificationFailed(
                String::from_str("Comment predates the configured age cut-off"),
            ),
        ),
        Err(CommentVerificationError::InvalidReference) => Err(
            CardIssuanceError::MembershipVerificationFailed(
                String::from_str("Invalid comment link or ID"),
            ),
        ),
        Err(CommentVerificationError::ParseError(m)) => Err(
            CardIssuanceError::MembershipVerificationFailed(m),
        ),
    }
}

/// The label an audit snapshot gives the proof method.
pub open spec fn method_label(method: ProofMethod) -> Seq<char> {
    match method {
        ProofMethod::Video => "video_access"@,
        ProofMethod::Comment => "comment"@,
    }
}

/// The audit snapshot stored with a card: the proof method, the video the
/// proof ran against, and the two instants, spelled out as JSON text.
pub open spec fn audit_snapshot(
    method: ProofMethod,
    video_id: Seq<char>,
    verified_at: int,
    session_started_at: int,
) -> Seq<char> {
    "{\"verification\":{\"method\":\""@ + method_label(method) + "\",\"video_id\":\""@ + video_id
        + "\",\"verified_at\":"@ + strutil::dec_i64(verified_at) + ",\"session_started_at\":"@
        + strutil::dec_i64(session_started_at) + "}}"@
}

/// Builds the audit snapshot text for a card.
pub fn build_audit_snapshot(
    method: ProofMethod,
    video_id: &str,
    verified_at: i64,
    session_started_at: i64,
) -> (r: String)
    ensures
        r@ == audit_snapshot(method, video_id@, verified_at as int, session_started_at as int),
{
    let mut s = String::from_str("{\"verification\":{\"method\":\"");
    match method {
        ProofMethod::Video => s.append("video_access"),
        ProofMethod::Comment => s.append("comment"),
    }
    s.append("\",\"video_id\":\"");
    s.append(video_id);
    s.append("\",\"verified_at\":");
    s.append(strutil::i64_to_string(verified_at).as_str());
    s.append(",\"session_started_at\":");
    s.append(strutil::i64_to_string(session_started_at).as_str());
    s.append("}}");
    proof {
        assert(s@ =~= audit_snapshot(
            method,
            video_id@,
            verified_at as int,
            session_started_at as int,
        ));
    }
    s
}

/// What the expiry note on a duplicate-card rejection says of the existing
/// card's expiry.
pub open spec fn expiry_label(expires_at: Option<i64>) -> Seq<char> {
    match expires_at {
        Some(t) => "Expires: "@ + utc_date_label(t),
        None => "No expiration"@,
    }
}

/// The UTC calendar date of an epoch instant, as the wallet-facing label
/// shows it; fixed by the instant alone.
pub uninterp spec fn utc_date_label(ts: i64) -> Seq<char>;

/// Relies on chrono's DateTime::from_timestamp and format: the UTC calendar
/// date of the instant, as year-month-day.
#[verifier::external_body]
fn format_utc_date(ts: i64) -> (r: String)
    ensures
        r@ == utc_date_label(ts),
{
    match chrono::DateTime::from_timestamp(ts, 0) {
        Some(d) => d.format("%Y-%m-%d").to_string(),
        None => String::new(),
    }
}

/// Takes the proof outcome: a failed proof stops the operation;
/// a confirmed one upserts the member from the latest evidence, rejects the
/// claim when an active unexpired card already exists for the pair — the
/// business rule; the store's create is the race guard — and lays out the
/// wallet mint with a sanitized display name.
pub fn issue_after_proof(
    checked: Result<ProofEvidence, CardIssuanceError>,
    issuer: &CardIssuer,
    request: &IssueCardRequest,
    members: &mut MemberStore,
    cards: &CardStore,
    now: i64,
) -> (r: Result<(Member, ProofEvidence, MintTask), CardIssuanceError>)
    requires
        member_store_wf(old(members)),
        old(members).next_id < u64::MAX,
    ensures
        member_store_wf(final(members)),
        checked matches Err(e) ==> (r matches Err(e2) && e2 == e && *final(members) == *old(members)),
        r matches Ok(p) ==> checked matches Ok(ev) && p.1 == ev,
        r matches Ok(p) ==> p.0.youtube_user_id@ == request.member_youtube_user_id@ && (exists|
            j: int,
        |
            0 <= j < final(members).members@.len() && #[trigger] final(members).members@[j]
                == p.0) && forall|i: int|
            0 <= i < cards.cards@.len() ==> !((#[trigger] cards.cards@[i]).issuer_id == issuer.id
                && cards.cards@[i].member_id == p.0.id && active_unexpired(cards.cards@[i], now)),
        r matches Ok(p) ==> issuer.vc_uid matches Some(v) && p.2.vc_uid@ == v@ && p.2.field_ename@
            == "name"@ && (sanitized_name(request.member_display_name@).len() > 0
            ==> p.2.display_name@ == sanitized_name(request.member_display_name@)) && (
        sanitized_name(request.member_display_name@).len() == 0 ==> p.2.display_name@
            == "Member"@),
        checked is Ok ==> (r matches Err(e) ==> (e is DuplicateCard ==> (exists|i: int, j: int|
            0 <= i < cards.cards@.len() && 0 <= j < final(members).members@.len() && (
            #[trigger] cards.cards@[i]).issuer_id == issuer.id && cards.cards@[i].member_id == (
            #[trigger] final(members).members@[j]).id && final(members).members@[j].youtube_user_id@
                == request.member_youtube_user_id@ && active_unexpired(cards.cards@[i], now) && (
            e matches CardIssuanceError::DuplicateCard(m) && m@ == expiry_label(
                cards.cards@[i].expires_at,
            ))))),
        checked is Ok ==> (r matches Err(e) ==> (e is MissingVcUid ==> issuer.vc_uid is None)),
        checked is Ok ==> has_member_key(final(members).members@, request.member_youtube_user_id@),
        checked is Ok ==> (r is Ok || (r matches Err(e) && (e is DuplicateCard
            || e is MissingVcUid))),
        (checked is Ok && !has_member_key(old(members).members@, request.member_youtube_user_id@))
            ==> (final(members).members@.len() == old(members).members@.len() + 1 && (forall|
            i: int,
        |
            0 <= i < old(members).members@.len() ==> final(members).members@[i] == #[trigger] old(
                members,
            ).members@[i])),
        (checked is Ok && has_member_key(old(members).members@, request.member_youtube_user_id@))
            ==> (final(members).members@.len() == old(members).members@.len() && (forall|i: int|
            0 <= i < old(members).members@.len() ==> final(members).members@[i] == (if (
            #[trigger] old(members).members@[i]).youtube_user_id@
                == request.member_youtube_user_id@ {
                crate::members::profile_updated(
                    old(members).members@[i],
                    Some(request.member_display_name),
                    request.member_avatar_url,
                    None,
                    now,
                )
            } else {
                old(members).members@[i]
            }))),
{
    let evidence = match checked {
        Ok(ev) => ev,
        Err(e) => {
            return Err(e);
        },
    };
    let member = members.find_or_create(
        CreateMemberData {
            youtube_user_id: crate::cards::dup_string(&request.member_youtube_user_id),
            default_display_name: crate::cards::dup_string(&request.member_display_name),
            avatar_url: crate::cards::dup_opt_string(&request.member_avatar_url),
            locale: None,
        },
        now,
    );
    let existing = cards.find_active_unexpired_cards(issuer.id, member.id, now);
    if existing.len() > 0 {
        let first = &existing[0];
        let label = match first.expires_at {
            Some(t) => {
                let mut s = String::from_str("Expires: ");
                s.append(format_utc_date(t).as_str());
                proof {
                    assert(s@ =~= "Expires: "@ + utc_date_label(t));
                }
                s
            },
            None => String::from_str("No expiration"),
        };
        proof {
            let i = choose|i: int|
                0 <= i < cards.cards@.len() && #[trigger] cards.cards@[i] == existing@[0];
            let j = choose|j: int|
                0 <= j < members.members@.len() && #[trigger] members.members@[j] == member;
            assert(cards.cards@[i].issuer_id == issuer.id && cards.cards@[i].member_id
                == members.members@[j].id && members.members@[j].youtube_user_id@
                == request.member_youtube_user_id@ && active_unexpired(cards.cards@[i], now)
                && label@ == expiry_label(cards.cards@[i].expires_at));
        }
        return Err(CardIssuanceError::DuplicateCard(label));
    }
    let vc_uid = match &issuer.vc_uid {
        Some(v) => crate::cards::dup_string(v),
        None => {
            return Err(CardIssuanceError::MissingVcUid);
        },
    };
    let display_name = crate::wallet::sanitize_display_name(request.member_display_name.as_str());
    let task = MintTask { vc_uid, field_ename: String::from_str("name"), display_name };
    Ok((member, evidence, task))
}

/// Takes the wallet mint answer: a mint failure stops the
/// operation with the card store untouched; a minted QR lets the card be
/// created — superseding every prior card of the pair — and the wallet
/// fields attached to it.
pub fn issue_after_mint(
    mint: Result<WalletQrResponse, WalletQrError>,
    member: Member,
    evidence: ProofEvidence,
    issuer: &CardIssuer,
    session_started_at: i64,
    cards: &mut CardStore,
    now: i64,
) -> (r: Result<IssueCardResult, CardIssuanceError>)
    requires
        store_wf(old(cards)),
        0 <= now <= i64::MAX - 30 * 86400,
        old(cards).next_id < u64::MAX,
    ensures
        store_wf(final(cards)),
        mint matches Err(e) ==> (r matches Err(e2) && (
        e2 matches CardIssuanceError::WalletQrGeneration(e3) && e3 == e) && *final(cards) == *old(cards)),
        mint is Ok ==> r is Ok,
        r matches Ok(res) ==> (mint matches Ok(w) && final(cards).cards@.len() == old(
            cards,
        ).cards@.len() + 1 && (forall|i: int|
            0 <= i < old(cards).cards@.len() ==> final(cards).cards@[i] == superseded_card(
                #[trigger] old(cards).cards@[i],
                issuer.id,
                member.id,
                now,
            )) && res.card == final(cards).cards@.last() && res.card.status is Active
            && res.card.issuer_id == issuer.id && res.card.member_id == member.id
            && res.card.expires_at == Some((now + 30 * 86400) as i64)
            && res.card.verification_failures == 0 && (
        res.card.wallet_transaction_id matches Some(t) && t@ == w.transaction_id@) && (
        res.card.wallet_qr_code matches Some(q) && q@ == w.qr_code@) && (
        res.card.wallet_deep_link matches Some(d) && d@ == w.deep_link@)
            && res.card.snapshot_json@ == audit_snapshot(
            issuer.verification_method,
            evidence.video_id@,
            now as int,
            session_started_at as int,
        ) && res.member == member),
{
    let w = match mint {
        Ok(w) => w,
        Err(e) => {
            return Err(CardIssuanceError::WalletQrGeneration(e));
        },
    };
    let snapshot = build_audit_snapshot(
        issuer.verification_method,
        evidence.video_id.as_str(),
        now,
        session_started_at,
    );
    let data = CreateCardData {
        issuer_id: issuer.id,
        member_id: member.id,
        membership_level_label: crate::cards::dup_string(&issuer.default_membership_label),
        membership_confirmed_at: evidence.confirmed_at,
        verification_comment_id: evidence.proof_reference,
        verification_video_id: evidence.video_id,
        snapshot_json: snapshot,
    };
    let created = cards.create(data, now);
    let card_id = created.id;
    let ghost after_create = cards.cards@;
    cards.set_wallet_qr(
        card_id,
        crate::cards::dup_string(&w.transaction_id),
        crate::cards::dup_string(&w.qr_code),
        Some(crate::cards::dup_string(&w.deep_link)),
    );
    proof {
        assert forall|i: int|
            0 <= i < old(cards).cards@.len() implies cards.cards@[i] == superseded_card(
            #[trigger] old(cards).cards@[i],
            issuer.id,
            member.id,
            now,
        ) by {
            assert(after_create[i] == superseded_card(old(cards).cards@[i], issuer.id, member.id, now));
            assert(after_create[i].id < old(cards).next_id);
            assert(cards.cards@[i] == after_create[i]);
        }
        assert(cards.cards@.last().id == card_id);
    }
    let stored = match cards.find_by_id(card_id) {
        Some(c) => c,
        None => {
            proof {
                assert(cards.cards@.last().id == card_id);
                assert(false);
            }
            created
        },
    };
    proof {
        let j = choose|j: int| 0 <= j < cards.cards@.len() && #[trigger] cards.cards@[j] == stored;
        if j != cards.cards@.len() - 1 {
            assert(cards.cards@[j].id != cards.cards@[cards.cards@.len() - 1].id);
        }
        assert(stored == cards.cards@.last());
    }
    Ok(IssueCardResult { card: stored, member })
}

} // verus!
