use base64::engine::general_purpose::URL_SAFE_NO_PAD;
use base64::Engine;
use membercard::cards::CreateCardData;
use membercard::store::CardStore;
use membercard::wallet::{
    classify_mint_response, classify_poll_response, complete_wallet_scan, extract_cid_from_jwt,
    sanitize_display_name, wallet_healthy, WalletQrError,
};

fn build_jwt(jti: &str) -> String {
    let header = URL_SAFE_NO_PAD.encode(b"{\"alg\":\"ES256\"}");
    let payload_json = format!("{{\"jti\":\"{}\",\"iss\":\"issuer\"}}", jti);
    let payload = URL_SAFE_NO_PAD.encode(payload_json.as_bytes());
    format!("{}.{}.signature", header, payload)
}

#[test]
fn test_extract_cid_from_jwt() {
    let jwt = build_jwt("https://issuer.example/api/credential/a16187e9-755e-48ca-a9c0-622f76fe1360");
    let cid = extract_cid_from_jwt(&jwt).unwrap();
    assert_eq!(cid, "a16187e9-755e-48ca-a9c0-622f76fe1360");
    assert!(!cid.is_empty());
}

#[test]
fn test_extract_cid_rejects_malformed_token() {
    let result = extract_cid_from_jwt("only-one-part");
    assert!(matches!(result, Err(WalletQrError::InvalidJwt(_))));

    let result = extract_cid_from_jwt("two.parts");
    assert!(matches!(result, Err(WalletQrError::InvalidJwt(_))));

    let result = extract_cid_from_jwt("a.b.c.d");
    assert!(matches!(result, Err(WalletQrError::InvalidJwt(_))));
}

#[test]
fn test_extract_cid_rejects_bad_base64() {
    let result = extract_cid_from_jwt("header.???.signature");
    assert!(matches!(result, Err(WalletQrError::InvalidJwt(_))));
}

#[test]
fn test_extract_cid_rejects_empty_segment() {
    let jwt = build_jwt("https://issuer.example/api/credential/");
    let result = extract_cid_from_jwt(&jwt);
    assert!(matches!(result, Err(WalletQrError::InvalidJwt(_))));
}

#[test]
fn test_poll_not_ready_code() {
    let body = "{\"code\":\"61010\",\"message\":\"not scanned\"}";
    let result = classify_poll_response(400, body);
    assert!(matches!(result, Err(WalletQrError::CredentialNotReady)));

    // The same code inside a successful answer still means pending.
    let result = classify_poll_response(200, body);
    assert!(matches!(result, Err(WalletQrError::CredentialNotReady)));
}

#[test]
fn test_poll_missing_transaction_is_not_ready() {
    let result = classify_poll_response(404, "gone");
    assert!(matches!(result, Err(WalletQrError::CredentialNotReady)));
}

#[test]
fn test_poll_ready_returns_credential() {
    let body = "{\"credential\":\"headers.payload.sig\"}";
    let response = classify_poll_response(200, body).unwrap();
    assert_eq!(response.credential, "headers.payload.sig");
}

#[test]
fn test_poll_hard_error() {
    let result = classify_poll_response(500, "boom");
    assert!(matches!(result, Err(WalletQrError::ApiError(_))));

    let result = classify_poll_response(200, "{\"unexpected\":true}");
    assert!(matches!(result, Err(WalletQrError::ApiError(_))));
}

#[test]
fn test_sanitize_display_name() {
    assert_eq!(sanitize_display_name("Test Name!"), "TestName");
    assert_eq!(sanitize_display_name("under_score9"), "under_score9");
    assert_eq!(sanitize_display_name("!!! ???"), "Member");
    assert_eq!(sanitize_display_name(""), "Member");
    assert_eq!(sanitize_display_name("王小明 (fan)"), "王小明fan");
}

#[test]
fn test_wallet_health_classification() {
    assert!(wallet_healthy(200));
    assert!(wallet_healthy(404));
    assert!(!wallet_healthy(500));
    assert!(!wallet_healthy(503));
}

#[test]
fn test_poll_not_ready_then_ready_marks_scanned_once() {
    let mut cards = CardStore::new();
    let now = 1_700_000_000;
    let card = cards.create(
        CreateCardData {
            issuer_id: 1,
            member_id: 7,
            membership_level_label: "Member".to_string(),
            membership_confirmed_at: now,
            verification_comment_id: "c".to_string(),
            verification_video_id: "v".to_string(),
            snapshot_json: String::new(),
        },
        now,
    );
    cards.set_wallet_qr(card.id, "tx-9".to_string(), "QR".to_string(), None);

    // First poll: the wallet has not been scanned yet.
    let pending = complete_wallet_scan(
        &mut cards,
        card.id,
        400,
        "{\"code\":\"61010\"}",
        now + 10,
    );
    assert!(matches!(pending, Err(WalletQrError::CredentialNotReady)));
    assert_eq!(cards.find_by_id(card.id).unwrap().wallet_scanned_at, None);

    // Second poll: the wallet answered with the credential token.
    let jwt = build_jwt("https://issuer.example/api/credential/cid-abc-123");
    let body = format!("{{\"credential\":\"{}\"}}", jwt);
    let cid = complete_wallet_scan(&mut cards, card.id, 200, &body, now + 20).unwrap();
    assert_eq!(cid, "cid-abc-123");
    assert!(!cid.is_empty());
    let after = cards.find_by_id(card.id).unwrap();
    assert_eq!(after.wallet_cid, Some("cid-abc-123".to_string()));
    assert_eq!(after.wallet_scanned_at, Some(now + 20));

    // A third poll records nothing anew: the scan is marked exactly once.
    let again = complete_wallet_scan(&mut cards, card.id, 200, &body, now + 30).unwrap();
    assert_eq!(again, "cid-abc-123");
    let unchanged = cards.find_by_id(card.id).unwrap();
    assert_eq!(unchanged.wallet_scanned_at, Some(now + 20));
}

#[test]
fn test_classify_mint_response() {
    let minted = classify_mint_response(
        200,
        Some(("tx-1".to_string(), "QR".to_string(), "deep://link".to_string())),
        "",
    )
    .unwrap();
    assert_eq!(minted.transaction_id, "tx-1");
    assert_eq!(minted.qr_code, "QR");
    assert_eq!(minted.deep_link, "deep://link");

    assert!(matches!(
        classify_mint_response(200, None, "garbled"),
        Err(WalletQrError::ApiError(_))
    ));
    assert!(matches!(
        classify_mint_response(500, None, "down"),
        Err(WalletQrError::ApiError(_))
    ));
}
