use membercard::issuance::{
    issue_after_health, issue_after_mint, issue_after_proof, issue_begin, proof_to_issue,
    CardIssuanceError, IssueCardRequest,
};
use membercard::cards::CardStatus;
use membercard::issuers::{CreateIssuerData, IssuerStore};
use membercard::members::MemberStore;
use membercard::membership::{classify_video_access, video_access_outcome};
use membercard::store::CardStore;
use membercard::wallet::{wallet_healthy, WalletQrResponse};

const DAY: i64 = 86400;

struct World {
    issuers: IssuerStore,
    members: MemberStore,
    cards: CardStore,
    issuer_id: u64,
}

fn build_world() -> World {
    let mut issuers = IssuerStore::new();
    let issuer = issuers.create(
        CreateIssuerData {
            youtube_channel_id: "UC123456".to_string(),
            channel_handle: Some("@testchannel".to_string()),
            channel_name: "Test Channel".to_string(),
            verification_video_id: "dQw4w9WgXcQ".to_string(),
            default_membership_label: "Channel Member".to_string(),
            vc_uid: Some("vc-uid-1".to_string()),
        },
        1_700_000_000,
    );
    World {
        issuers,
        members: MemberStore::new(),
        cards: CardStore::new(),
        issuer_id: issuer.id,
    }
}

fn request(issuer_id: u64) -> IssueCardRequest {
    IssueCardRequest {
        issuer_id,
        member_youtube_user_id: "UCmember001".to_string(),
        member_display_name: "Test Member".to_string(),
        member_avatar_url: None,
        comment_link_or_id: None,
        session_started_at: 1_700_000_000,
        access_token: "token-abc".to_string(),
    }
}

/// Drives one full issuance; counts how many proof checks ran.
fn run_issuance(
    world: &mut World,
    wallet_status: u16,
    member_has_access: bool,
    now: i64,
    proof_calls: &mut usize,
) -> Result<membercard::issuance::IssueCardResult, CardIssuanceError> {
    issue_begin(true)?;
    let healthy = wallet_healthy(wallet_status);
    let (issuer, task) = issue_after_health(healthy, &world.issuers, &request(world.issuer_id))?;

    // The proof check runs only when a task was laid out.
    *proof_calls += 1;
    let items = if member_has_access { Some(1) } else { Some(0) };
    let access = classify_video_access(200, items, "");
    let outcome = video_access_outcome(
        access,
        format!("membership-access:{}", task.video_id),
        task.video_id.clone(),
        now,
    );

    let req = request(world.issuer_id);
    let (member, evidence, _mint) = issue_after_proof(
        proof_to_issue(outcome),
        &issuer,
        &req,
        &mut world.members,
        &world.cards,
        now,
    )?;

    let minted = Ok(WalletQrResponse {
        transaction_id: "tx-777".to_string(),
        qr_code: "QRDATA".to_string(),
        deep_link: "deep://link".to_string(),
    });
    issue_after_mint(
        minted,
        member,
        evidence,
        &issuer,
        req.session_started_at,
        &mut world.cards,
        now,
    )
}

#[test]
fn test_issue_card_happy_path() {
    let mut world = build_world();
    let now = 1_700_000_000;
    let mut proof_calls = 0;
    let result = run_issuance(&mut world, 200, true, now, &mut proof_calls).unwrap();

    assert_eq!(result.card.status, CardStatus::Active);
    assert_eq!(result.card.expires_at, Some(now + 30 * DAY));
    assert_eq!(result.card.verification_failures, 0);
    assert_eq!(result.card.wallet_transaction_id, Some("tx-777".to_string()));
    assert_eq!(result.card.wallet_qr_code, Some("QRDATA".to_string()));
    assert_eq!(result.card.wallet_deep_link, Some("deep://link".to_string()));
    assert_eq!(result.member.youtube_user_id, "UCmember001");
    assert_eq!(proof_calls, 1);
}

#[test]
fn test_issue_card_duplicate_rejected() {
    let mut world = build_world();
    let now = 1_700_000_000;
    let mut proof_calls = 0;
    run_issuance(&mut world, 200, true, now, &mut proof_calls).unwrap();

    let again = run_issuance(&mut world, 200, true, now + 60, &mut proof_calls);
    match again {
        Err(CardIssuanceError::DuplicateCard(message)) => {
            assert!(message.starts_with("Expires: "));
        }
        other => panic!("expected a duplicate-card rejection, got {:?}", other.is_ok()),
    }
}

#[test]
fn test_issue_card_wallet_down_fails_before_proof() {
    let mut world = build_world();
    let now = 1_700_000_000;
    let mut proof_calls = 0;
    let result = run_issuance(&mut world, 503, true, now, &mut proof_calls);
    assert!(matches!(
        result,
        Err(CardIssuanceError::WalletServiceUnavailable)
    ));
    // The proof checker was never consulted.
    assert_eq!(proof_calls, 0);
    // And no card row was written.
    assert_eq!(world.cards.find_active_unexpired_cards(world.issuer_id, 1, now).len(), 0);
}

#[test]
fn test_issue_card_not_a_member() {
    let mut world = build_world();
    let now = 1_700_000_000;
    let mut proof_calls = 0;
    let result = run_issuance(&mut world, 200, false, now, &mut proof_calls);
    assert!(matches!(
        result,
        Err(CardIssuanceError::MembershipVerificationFailed(_))
    ));
    assert_eq!(proof_calls, 1);
}

#[test]
fn test_issue_card_unknown_issuer() {
    let world = build_world();
    let result = issue_after_health(true, &world.issuers, &request(9999));
    assert!(matches!(result, Err(CardIssuanceError::IssuerNotFound)));
}

#[test]
fn test_issue_card_inactive_issuer() {
    let mut world = build_world();
    world.issuers.set_active_status(world.issuer_id, false, 1_700_000_100);
    let result = issue_after_health(true, &world.issuers, &request(world.issuer_id));
    assert!(matches!(result, Err(CardIssuanceError::IssuerNotFound)));
}

#[test]
fn test_issue_card_unconfigured_wallet() {
    let result = issue_begin(false);
    assert!(matches!(result, Err(CardIssuanceError::IssuerApiNotConfigured)));
}
