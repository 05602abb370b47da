use membercard::audit::{AuditLog, CreateVerificationEventData, EventStats, PaginationParams};
use membercard::cards::CreateCardData;
use membercard::health::{all_healthy, ServiceHealth};
use membercard::issuers::{CreateIssuerData, IssuerStore};
use membercard::oidvp::{
    classify_oidvp_failure, extract_member_info, lookup_value, strip_qr_prefix, ClaimData,
    CredentialData, OidvpError, SessionStatus, VerificationSession,
};
use membercard::qr_payload::MembershipCardPayload;
use membercard::signature::sign;
use membercard::store::CardStore;
use membercard::vault::{
    merge_refresh_token, plan_token_use, token_expiry, CreateSessionData, SessionStore,
    TokenDirective,
};
use membercard::verification::{verify_qr_payload, VerificationResult};

#[test]
fn test_extract_member_info() {
    let credentials = vec![CredentialData {
        credential_type: "MembershipCard".to_string(),
        claims: vec![
            ClaimData {
                ename: "name".to_string(),
                cname: "姓名".to_string(),
                value: "Test User".to_string(),
            },
            ClaimData {
                ename: "memberLevel".to_string(),
                cname: "會員等級".to_string(),
                value: "Premium".to_string(),
            },
        ],
    }];

    let info = extract_member_info(&credentials).unwrap();
    assert_eq!(lookup_value(&info, "name"), Some("Test User".to_string()));
    assert_eq!(lookup_value(&info, "memberLevel"), Some("Premium".to_string()));
    assert_eq!(
        lookup_value(&info, "credentialType"),
        Some("MembershipCard".to_string())
    );
    assert_eq!(lookup_value(&info, "missing"), None);
    assert!(extract_member_info(&Vec::new()).is_none());
}

#[test]
fn test_payload_creation() {
    let payload = MembershipCardPayload::new(
        "11111111-1111-1111-1111-111111111111".to_string(),
        "22222222-2222-2222-2222-222222222222".to_string(),
        "Test Channel".to_string(),
        "UC123456".to_string(),
        Some("@testchannel".to_string()),
        "Test Member".to_string(),
        "Channel Member".to_string(),
        1_700_000_000,
        1_700_000_100,
        "video123".to_string(),
        "comment123".to_string(),
    );

    assert_eq!(payload.issuer.name, "Test Channel");
    assert_eq!(payload.member.display_name, "Test Member");
    assert_eq!(payload.verification.video_id, "video123");
    assert!(payload.signature.is_none());
}

#[test]
fn test_payload_signing() {
    let payload_text = "{\"card_id\":\"123\",\"member\":\"Test Member\"}";
    let key = b"test-signing-key";
    let signature = sign(payload_text, key);

    assert!(!signature.is_empty());
    assert!(signature.chars().all(|c| c.is_ascii_hexdigit()));
}

#[test]
fn test_success_rate_label() {
    let stats = EventStats {
        total_scans: 4,
        successful_scans: 3,
        failed_scans: 1,
        unique_cards: 2,
    };
    assert_eq!(stats.success_rate_label(), Some("75.0".to_string()));

    let third = EventStats {
        total_scans: 3,
        successful_scans: 1,
        failed_scans: 2,
        unique_cards: 1,
    };
    assert_eq!(third.success_rate_label(), Some("33.3".to_string()));

    let empty = EventStats {
        total_scans: 0,
        successful_scans: 0,
        failed_scans: 0,
        unique_cards: 0,
    };
    assert_eq!(empty.success_rate_label(), None);
}

#[test]
fn test_audit_log_appends_and_counts() {
    let mut log = AuditLog::new();
    log.create_event(
        CreateVerificationEventData {
            event_id: 1,
            card_id: Some(10),
            verification_result: "success".to_string(),
            verification_context: None,
            raw_payload: None,
        },
        1_700_000_000,
    );
    log.create_event(
        CreateVerificationEventData {
            event_id: 1,
            card_id: None,
            verification_result: "invalid_payload".to_string(),
            verification_context: None,
            raw_payload: Some("junk".to_string()),
        },
        1_700_000_001,
    );
    log.create_event(
        CreateVerificationEventData {
            event_id: 2,
            card_id: Some(11),
            verification_result: "success".to_string(),
            verification_context: None,
            raw_payload: None,
        },
        1_700_000_002,
    );

    assert_eq!(log.count_by_event_and_result(1, None), 2);
    assert_eq!(log.count_by_event_and_result(1, Some("success")), 1);
    assert_eq!(log.count_by_event_and_result(2, Some("success")), 1);
    assert_eq!(log.count_by_event_and_result(3, None), 0);
}

#[test]
fn test_pagination_defaults() {
    let defaults = membercard::audit::resolve_pagination(&PaginationParams {
        page: None,
        per_page: None,
    });
    assert_eq!(defaults, (1, 50, 0));

    let third_page = membercard::audit::resolve_pagination(&PaginationParams {
        page: Some(3),
        per_page: Some(25),
    });
    assert_eq!(third_page, (3, 25, 50));
}

#[test]
fn test_all_healthy() {
    let healthy = ServiceHealth {
        status: "healthy".to_string(),
        response_time_ms: 5,
        error: None,
    };
    let not_configured = ServiceHealth {
        status: "not_configured".to_string(),
        response_time_ms: 0,
        error: None,
    };
    let down = ServiceHealth {
        status: "unhealthy".to_string(),
        response_time_ms: 30,
        error: Some("boom".to_string()),
    };
    assert!(all_healthy(&healthy, &healthy));
    assert!(all_healthy(&healthy, &not_configured));
    assert!(!all_healthy(&down, &healthy));
    assert!(!all_healthy(&healthy, &down));
}

#[test]
fn test_token_vault_directives() {
    let mut sessions = SessionStore::new();
    let now = 1_700_000_000;
    assert!(matches!(
        plan_token_use(&sessions, 7, now),
        TokenDirective::NoSession
    ));

    sessions.create(
        CreateSessionData {
            member_id: 7,
            access_token: b"live-token".to_vec(),
            refresh_token: Some(b"refresh-token".to_vec()),
            token_scope: "scope".to_string(),
            token_expires_at: now + 3600,
        },
        now,
    );
    match plan_token_use(&sessions, 7, now) {
        TokenDirective::UseStored(token) => assert_eq!(token, b"live-token".to_vec()),
        _ => panic!("expected the stored token"),
    }

    // Once expired, the refresh token drives a refresh.
    match plan_token_use(&sessions, 7, now + 7200) {
        TokenDirective::RefreshWith(token) => assert_eq!(token, b"refresh-token".to_vec()),
        _ => panic!("expected a refresh directive"),
    }

    // The newest session wins.
    sessions.create(
        CreateSessionData {
            member_id: 7,
            access_token: b"newer-token".to_vec(),
            refresh_token: None,
            token_scope: "scope".to_string(),
            token_expires_at: now + 9000,
        },
        now + 100,
    );
    match plan_token_use(&sessions, 7, now + 200) {
        TokenDirective::UseStored(token) => assert_eq!(token, b"newer-token".to_vec()),
        _ => panic!("expected the newest stored token"),
    }
}

#[test]
fn test_token_refresh_helpers() {
    assert_eq!(token_expiry(1000, Some(60)), 1060);
    assert_eq!(token_expiry(1000, None), 4600);
    assert_eq!(
        merge_refresh_token(Some("fresh".to_string()), "stored".to_string()),
        "fresh"
    );
    assert_eq!(
        merge_refresh_token(None, "stored".to_string()),
        "stored"
    );
}

#[test]
fn test_verify_qr_payload_verdicts() {
    let mut cards = CardStore::new();
    let mut issuers = IssuerStore::new();
    let now = 1_700_000_000;
    let issuer = issuers.create(
        CreateIssuerData {
            youtube_channel_id: "UC1".to_string(),
            channel_handle: None,
            channel_name: "Channel".to_string(),
            verification_video_id: "vid".to_string(),
            default_membership_label: "Member".to_string(),
            vc_uid: None,
        },
        now,
    );
    let card = cards.create(
        CreateCardData {
            issuer_id: issuer.id,
            member_id: 7,
            membership_level_label: "Member".to_string(),
            membership_confirmed_at: now,
            verification_comment_id: "c".to_string(),
            verification_video_id: "vid".to_string(),
            snapshot_json: String::new(),
        },
        now,
    );

    let ok = verify_qr_payload(
        &cards,
        &issuers,
        &format!("{{\"card_id\":\"{}\"}}", card.id),
        now + 10,
    )
    .unwrap();
    assert!(matches!(ok, VerificationResult::Success { .. }));
    assert_eq!(ok.result_type(), "success");
    assert_eq!(ok.card_id(), Some(card.id));

    let gone = verify_qr_payload(&cards, &issuers, "{\"card_id\":\"424242\"}", now).unwrap();
    assert!(matches!(gone, VerificationResult::CardNotFound { .. }));

    let junk = verify_qr_payload(&cards, &issuers, "{\"invalid\":\"data\"}", now).unwrap();
    assert!(matches!(junk, VerificationResult::InvalidPayload { .. }));
    assert_eq!(junk.card_id(), None);

    let lapsed = verify_qr_payload(
        &cards,
        &issuers,
        &format!("{{\"card_id\":\"{}\"}}", card.id),
        now + 31 * 86400,
    )
    .unwrap();
    assert!(matches!(lapsed, VerificationResult::CardExpired { .. }));
}

#[test]
fn test_oidvp_failure_classification() {
    assert_eq!(classify_oidvp_failure(404, ""), OidvpError::NotReady);
    assert_eq!(
        classify_oidvp_failure(400, "verify result not found"),
        OidvpError::NotReady
    );
    assert_eq!(
        classify_oidvp_failure(400, "code 61010"),
        OidvpError::NotReady
    );
    assert!(matches!(
        classify_oidvp_failure(500, "boom"),
        OidvpError::ApiError(_)
    ));
}

#[test]
fn test_strip_qr_prefix() {
    assert_eq!(
        strip_qr_prefix("data:image/png;base64,AAAA"),
        "AAAA".to_string()
    );
    assert_eq!(strip_qr_prefix("AAAA"), "AAAA".to_string());
}

#[test]
fn test_verification_session_lifecycle() {
    let now = 1_700_000_000;
    let mut session = VerificationSession::create(
        "tx-1".to_string(),
        "image".to_string(),
        "auth://uri".to_string(),
        now,
    );
    assert_eq!(session.status, SessionStatus::Pending);
    assert_eq!(session.expires_at, now + 300);
    assert!(session.is_pending(now + 200));
    assert!(!session.is_pending(now + 301));
    assert!(session.is_expired(now + 301));

    session.update_result(true, "ok".to_string(), None, now + 60);
    assert_eq!(session.status, SessionStatus::Completed);
    assert_eq!(session.verify_result, Some(true));
    assert_eq!(session.completed_at, Some(now + 60));

    // The transition happens exactly once: later transitions change nothing.
    session.mark_expired();
    assert_eq!(session.status, SessionStatus::Completed);
    session.mark_failed("late".to_string());
    assert_eq!(session.status, SessionStatus::Completed);
    session.update_result(false, "again".to_string(), None, now + 120);
    assert_eq!(session.verify_result, Some(true));
}

#[test]
fn test_session_delete() {
    let mut sessions = SessionStore::new();
    let now = 1_700_000_000;
    let first = sessions.create(
        CreateSessionData {
            member_id: 7,
            access_token: b"a".to_vec(),
            refresh_token: None,
            token_scope: "scope".to_string(),
            token_expires_at: now + 100,
        },
        now,
    );
    sessions.create(
        CreateSessionData {
            member_id: 8,
            access_token: b"b".to_vec(),
            refresh_token: None,
            token_scope: "scope".to_string(),
            token_expires_at: now + 100,
        },
        now,
    );
    assert_eq!(sessions.delete(first), 1);
    assert_eq!(sessions.delete(first), 0);
    assert!(matches!(
        plan_token_use(&sessions, 7, now),
        TokenDirective::NoSession
    ));
    assert!(matches!(
        plan_token_use(&sessions, 8, now),
        TokenDirective::UseStored(_)
    ));
}

#[test]
fn test_prepare_qr_response() {
    let shaped = membercard::oidvp::prepare_qr_response(membercard::oidvp::QrCodeResponse {
        transaction_id: "tx".to_string(),
        qrcode_image: "data:image/png;base64,QUJD".to_string(),
        auth_uri: "auth://go".to_string(),
    });
    assert_eq!(shaped.qrcode_image, "QUJD");
    assert_eq!(shaped.expires_in_seconds, 300);
    assert_eq!(shaped.transaction_id, "tx");
}

#[test]
fn test_soft_delete_and_member_listing() {
    let mut cards = CardStore::new();
    let now = 1_700_000_000;
    let a = cards.create(
        CreateCardData {
            issuer_id: 1,
            member_id: 7,
            membership_level_label: "Member".to_string(),
            membership_confirmed_at: now,
            verification_comment_id: "c".to_string(),
            verification_video_id: "v".to_string(),
            snapshot_json: String::new(),
        },
        now,
    );
    let b = cards.create(
        CreateCardData {
            issuer_id: 2,
            member_id: 7,
            membership_level_label: "Member".to_string(),
            membership_confirmed_at: now,
            verification_comment_id: "c".to_string(),
            verification_video_id: "v".to_string(),
            snapshot_json: String::new(),
        },
        now,
    );
    assert_eq!(cards.list_by_member(7).len(), 2);
    cards.soft_delete(a.id, now + 5);
    let listed = cards.list_by_member(7);
    assert_eq!(listed.len(), 1);
    assert_eq!(listed[0].id, b.id);
    let active = cards.find_active_for_member(2, 7).unwrap();
    assert_eq!(active.id, b.id);
    assert!(cards.find_active_for_member(1, 7).is_none());
}

#[test]
fn test_event_stats_from_log() {
    let mut log = AuditLog::new();
    let mut record = |event_id: u64, card: Option<u64>, result: &str| {
        log.create_event(
            CreateVerificationEventData {
                event_id,
                card_id: card,
                verification_result: result.to_string(),
                verification_context: None,
                raw_payload: None,
            },
            1_700_000_000,
        );
    };
    record(1, Some(10), "success");
    record(1, Some(10), "success");
    record(1, Some(11), "success");
    record(1, None, "invalid_payload");
    record(2, Some(12), "success");

    let stats = log.event_stats(1);
    assert_eq!(stats.total_scans, 4);
    assert_eq!(stats.successful_scans, 3);
    assert_eq!(stats.failed_scans, 1);
    assert_eq!(stats.unique_cards, 2);
    assert_eq!(stats.success_rate_label(), Some("75.0".to_string()));
}

#[test]
fn test_qr_payload_parsing() {
    let card_id: u64 = 424242;
    let payload = format!("{{\"card_id\":\"{}\"}}", card_id);
    let parsed = membercard::verification::parse_qr_payload(&payload).unwrap();
    assert_eq!(parsed.card_id, card_id);
}

#[test]
fn test_invalid_payload() {
    let payload = "{\"invalid\":\"data\"}";
    let result = membercard::verification::parse_qr_payload(payload);
    assert!(result.is_none());
}
