use membercard::cards::{CardStatus, CreateCardData};
use membercard::reverify::{apply_reverification, ReverifyOutcome};
use membercard::store::CardStore;

const DAY: i64 = 86400;

fn card_data(issuer_id: u64, member_id: u64) -> CreateCardData {
    CreateCardData {
        issuer_id,
        member_id,
        membership_level_label: "Channel Member".to_string(),
        membership_confirmed_at: 1_700_000_000,
        verification_comment_id: "UgxABC123".to_string(),
        verification_video_id: "dQw4w9WgXcQ".to_string(),
        snapshot_json: String::new(),
    }
}

#[test]
fn test_create_sets_thirty_day_expiry() {
    let mut store = CardStore::new();
    let now = 1_700_000_000;
    let card = store.create(card_data(1, 1), now);
    assert_eq!(card.status, CardStatus::Active);
    assert_eq!(card.expires_at, Some(now + 30 * DAY));
    assert_eq!(card.verification_failures, 0);
    assert_eq!(card.wallet_transaction_id, None);
}

#[test]
fn test_supersession() {
    let mut store = CardStore::new();
    let now = 1_700_000_000;
    let first = store.create(card_data(1, 7), now);
    let second = store.create(card_data(1, 7), now + 10);

    let first_after = store.find_by_id(first.id).unwrap();
    let second_after = store.find_by_id(second.id).unwrap();
    assert_eq!(first_after.status, CardStatus::Deleted);
    assert_eq!(first_after.deleted_at, Some(now + 10));
    assert_eq!(second_after.status, CardStatus::Active);
}

#[test]
fn test_at_most_one_active_unexpired_per_pair() {
    let mut store = CardStore::new();
    let now = 1_700_000_000;
    store.create(card_data(1, 7), now);
    store.create(card_data(1, 7), now + 1);
    store.create(card_data(1, 7), now + 2);
    store.create(card_data(2, 7), now + 3);

    let active = store.find_active_unexpired_cards(1, 7, now + 4);
    assert_eq!(active.len(), 1);
    let other = store.find_active_unexpired_cards(2, 7, now + 4);
    assert_eq!(other.len(), 1);
}

#[test]
fn test_expired_card_is_not_listed_as_unexpired() {
    let mut store = CardStore::new();
    let now = 1_700_000_000;
    store.create(card_data(1, 7), now);
    let later = now + 31 * DAY;
    let active = store.find_active_unexpired_cards(1, 7, later);
    assert_eq!(active.len(), 0);
}

#[test]
fn test_failure_escalation() {
    let mut store = CardStore::new();
    let now = 1_700_000_000;
    let card = store.create(card_data(1, 7), now);

    let o1 = apply_reverification(&mut store, card.id, false, now + 1);
    assert_eq!(o1, ReverifyOutcome::MembershipExpired);
    let after1 = store.find_by_id(card.id).unwrap();
    assert_eq!(after1.verification_failures, 1);
    assert_eq!(after1.status, CardStatus::Active);

    apply_reverification(&mut store, card.id, false, now + 2);
    let after2 = store.find_by_id(card.id).unwrap();
    assert_eq!(after2.verification_failures, 2);
    assert_eq!(after2.status, CardStatus::Active);

    apply_reverification(&mut store, card.id, false, now + 3);
    let after3 = store.find_by_id(card.id).unwrap();
    assert_eq!(after3.verification_failures, 3);
    assert_eq!(after3.status, CardStatus::Expired);
}

#[test]
fn test_extend_resets_failures() {
    let mut store = CardStore::new();
    let now = 1_700_000_000;
    let card = store.create(card_data(1, 7), now);

    apply_reverification(&mut store, card.id, false, now + 1);
    apply_reverification(&mut store, card.id, false, now + 2);
    let failing = store.find_by_id(card.id).unwrap();
    assert_eq!(failing.verification_failures, 2);

    let outcome = apply_reverification(&mut store, card.id, true, now + 3);
    assert_eq!(outcome, ReverifyOutcome::StillMember);
    let refreshed = store.find_by_id(card.id).unwrap();
    assert_eq!(refreshed.verification_failures, 0);
    assert_eq!(refreshed.expires_at, Some(now + 3 + 30 * DAY));
    assert_eq!(refreshed.last_verified_at, Some(now + 3));
}

#[test]
fn test_find_cards_needing_verification() {
    let mut store = CardStore::new();
    let now = 1_700_000_000;
    let stale = store.create(card_data(1, 1), now);
    let fresh = store.create(card_data(2, 2), now);
    apply_reverification(&mut store, fresh.id, true, now + 2 * DAY - 3600);

    let due = store.find_cards_needing_verification(now + 2 * DAY, 10);
    assert!(due.contains(&stale.id));
    assert!(!due.contains(&fresh.id));

    let capped = store.find_cards_needing_verification(now + 2 * DAY, 0);
    assert_eq!(capped.len(), 0);
}

#[test]
fn test_sweep_selection_is_oldest_first_and_full() {
    let mut store = CardStore::new();
    let now = 1_700_000_000;
    let newer = store.create(card_data(1, 1), now);
    let older = store.create(card_data(2, 2), now);
    let never = store.create(card_data(3, 3), now);
    // Leave `never` unverified; verify the others at different ages.
    apply_reverification(&mut store, older.id, true, now + 1 * DAY);
    apply_reverification(&mut store, newer.id, true, now + 3 * DAY);

    let query_time = now + 10 * DAY;
    let due = store.find_cards_needing_verification(query_time, 10);
    assert_eq!(due, vec![never.id, older.id, newer.id]);

    // With more qualifying than the limit, exactly the oldest `limit` come.
    let capped = store.find_cards_needing_verification(query_time, 2);
    assert_eq!(capped, vec![never.id, older.id]);
}

#[test]
fn test_wallet_fields_and_scan() {
    let mut store = CardStore::new();
    let now = 1_700_000_000;
    let card = store.create(card_data(1, 7), now);
    store.set_wallet_qr(
        card.id,
        "tx-1".to_string(),
        "QRDATA".to_string(),
        Some("deep://link".to_string()),
    );
    let by_tx = store.find_by_wallet_transaction_id("tx-1").unwrap();
    assert_eq!(by_tx.id, card.id);
    assert_eq!(by_tx.wallet_qr_code, Some("QRDATA".to_string()));
    assert_eq!(by_tx.wallet_scanned_at, None);

    store.mark_wallet_scanned(card.id, "cid-123".to_string(), now + 5);
    let scanned = store.find_by_id(card.id).unwrap();
    assert_eq!(scanned.wallet_cid, Some("cid-123".to_string()));
    assert_eq!(scanned.wallet_scanned_at, Some(now + 5));
}

#[test]
fn test_count_by_issuer() {
    let mut store = CardStore::new();
    let now = 1_700_000_000;
    store.create(card_data(1, 1), now);
    store.create(card_data(1, 2), now);
    store.create(card_data(2, 3), now);
    assert_eq!(store.count_by_issuer(1), 2);
    assert_eq!(store.count_by_issuer(2), 1);
    assert_eq!(store.count_by_issuer(3), 0);
}

#[test]
fn test_set_status_revokes() {
    let mut store = CardStore::new();
    let now = 1_700_000_000;
    let card = store.create(card_data(1, 7), now);
    store.set_status(card.id, CardStatus::Revoked);
    let after = store.find_by_id(card.id).unwrap();
    assert_eq!(after.status, CardStatus::Revoked);
}
