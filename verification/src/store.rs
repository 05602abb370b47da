//! The authoritative state machine for membership cards: creation with
//! supersession of prior cards for the same issuer/member pair, expiry
//! extension, failure-count escalation, explicit status transitions, and the
//! queries the issuance and re-verification flows need.
//!
//! The store keeps the one invariant that matters under concurrent issuance:
//! at most one card per issuer/member pair is `Active`, so at most one is
//! active and unexpired at any moment. Creation supersedes and inserts as one
//! operation of the store, the way the backing row store wraps it in one
//! transaction.
use vstd::prelude::*;

use crate::cards::{active_unexpired, CardStatus, CreateCardData, MembershipCard};
use crate::strutil;

verus! {

/// All card identifiers are distinct.
pub open spec fn ids_unique(s: Seq<MembershipCard>) -> bool {
    forall|i: int, j: int| 0 <= i < j < s.len() ==> (#[trigger] s[i].id) != (#[trigger] s[j].id)
}

/// At most one card per issuer/member pair is Active.
pub open spec fn one_active_per_pair(s: Seq<MembershipCard>) -> bool {
    forall|i: int, j: int|
        0 <= i < s.len() && 0 <= j < s.len() && i != j && (#[trigger] s[i]).issuer_id == (
        #[trigger] s[j]).issuer_id && s[i].member_id == s[j].member_id ==> !(s[i].status is Active
            && s[j].status is Active)
}

/// The card store.
pub struct CardStore {
    pub cards: Vec<MembershipCard>,
    pub next_id: u64,
}

/// Well-formedness of the store: distinct identifiers below the next free
/// one, the one-Active-per-pair invariant, and nonnegative failure counts.
pub open spec fn store_wf(st: &CardStore) -> bool {
    &&& ids_unique(st.cards@)
    &&& one_active_per_pair(st.cards@)
    &&& forall|i: int| 0 <= i < st.cards@.len() ==> (#[trigger] st.cards@[i]).id < st.next_id
    &&& forall|i: int|
        0 <= i < st.cards@.len() ==> (#[trigger] st.cards@[i]).verification_failures >= 0
}

/// Whether some card in the sequence has the identifier.
pub open spec fn has_card(s: Seq<MembershipCard>, id: u64) -> bool {
    exists|i: int| 0 <= i < s.len() && (#[trigger] s[i]).id == id
}

/// A card as supersession leaves it: marked Deleted (with the deletion time)
/// when it is a not-yet-deleted card of the given pair, unchanged otherwise.
pub open spec fn superseded_card(
    c: MembershipCard,
    issuer_id: u64,
    member_id: u64,
    now: i64,
) -> MembershipCard {
    if c.issuer_id == issuer_id && c.member_id == member_id && !(c.status is Deleted) {
        MembershipCard { status: CardStatus::Deleted, deleted_at: Some(now), ..c }
    } else {
        c
    }
}

/// A freshly issued card: Active, expiring thirty days on, with no failures
/// and no wallet fields yet.
pub open spec fn fresh_card(id: u64, data: CreateCardData, now: i64) -> MembershipCard {
    MembershipCard {
        id,
        issuer_id: data.issuer_id,
        member_id: data.member_id,
        membership_level_label: data.membership_level_label,
        membership_confirmed_at: data.membership_confirmed_at,
        verification_comment_id: data.verification_comment_id,
        verification_video_id: data.verification_video_id,
        snapshot_json: data.snapshot_json,
        status: CardStatus::Active,
        expires_at: Some((now + 30 * 86400) as i64),
        last_verified_at: None,
        verification_failures: 0,
        deleted_at: None,
        issued_at: now,
        wallet_transaction_id: None,
        wallet_qr_code: None,
        wallet_deep_link: None,
        wallet_cid: None,
        wallet_scanned_at: None,
    }
}

/// A card as a successful re-verification leaves it: expiry pushed out by the
/// given days, just verified, and the failure count reset to zero.
pub open spec fn extended_card(c: MembershipCard, days: i64, now: i64) -> MembershipCard {
    MembershipCard {
        expires_at: Some((now + days * 86400) as i64),
        last_verified_at: Some(now),
        verification_failures: 0,
        ..c
    }
}

/// A card as a failed re-verification leaves it: one more failure, just
/// verified.
pub open spec fn failed_card(c: MembershipCard, now: i64) -> MembershipCard {
    MembershipCard {
        verification_failures: (c.verification_failures + 1) as i32,
        last_verified_at: Some(now),
        ..c
    }
}

/// A card with its status replaced.
pub open spec fn with_status(c: MembershipCard, status: CardStatus) -> MembershipCard {
    MembershipCard { status, ..c }
}

/// The active and unexpired cards of an issuer/member pair, in store order.
pub open spec fn active_unexpired_of(
    s: Seq<MembershipCard>,
    issuer_id: u64,
    member_id: u64,
    now: i64,
) -> Seq<MembershipCard>
    decreases s.len(),
{
    if s.len() == 0 {
        Seq::empty()
    } else {
        active_unexpired_of(s.drop_last(), issuer_id, member_id, now) + (if s.last().issuer_id
            == issuer_id && s.last().member_id == member_id && active_unexpired(s.last(), now) {
            seq![s.last()]
        } else {
            Seq::<MembershipCard>::empty()
        })
    }
}

/// The not-deleted cards of a member, in store order.
pub open spec fn member_cards_of(s: Seq<MembershipCard>, member_id: u64) -> Seq<MembershipCard>
    decreases s.len(),
{
    if s.len() == 0 {
        Seq::empty()
    } else {
        member_cards_of(s.drop_last(), member_id) + (if s.last().member_id == member_id && !(
        s.last().status is Deleted) {
            seq![s.last()]
        } else {
            Seq::<MembershipCard>::empty()
        })
    }
}

/// Whether a card qualifies for the re-verification sweep: Active and not
/// verified within the last interval.
pub open spec fn needs_verification(c: MembershipCard, now: i64) -> bool {
    &&& c.status is Active
    &&& match c.last_verified_at {
        Some(t) => t < now - 86400,
        None => true,
    }
}

/// Whether some card in `s` has the identifier and qualifies for the sweep.
pub open spec fn sweep_candidate(s: Seq<MembershipCard>, id: u64, now: i64) -> bool {
    exists|i: int| 0 <= i < s.len() && (#[trigger] s[i]).id == id && needs_verification(s[i], now)
}

/// How many cards of a sequence qualify for the sweep.
pub open spec fn count_needing_verification(s: Seq<MembershipCard>, now: i64) -> int
    decreases s.len(),
{
    if s.len() == 0 {
        0
    } else {
        count_needing_verification(s.drop_last(), now) + if needs_verification(s.last(), now) {
            1int
        } else {
            0int
        }
    }
}

/// How stale a card is for the sweep's ordering: a never-verified card comes
/// before every verified one, then older verifications come first.
pub open spec fn stale_key(c: MembershipCard) -> int {
    match c.last_verified_at {
        None => (i64::MIN as int) - 1,
        Some(t) => t as int,
    }
}

/// The staleness of the card carrying the identifier.
pub open spec fn sweep_key(s: Seq<MembershipCard>, id: u64) -> int {
    let i = choose|i: int| 0 <= i < s.len() && (#[trigger] s[i]).id == id;
    stale_key(s[i])
}

/// Whether the first card is strictly staler than the second.
fn key_less(a: &MembershipCard, b: &MembershipCard) -> (r: bool)
    ensures
        r == (stale_key(*a) < stale_key(*b)),
{
    match (a.last_verified_at, b.last_verified_at) {
        (None, None) => false,
        (None, Some(_)) => true,
        (Some(_), None) => false,
        (Some(x), Some(y)) => x < y,
    }
}

/// How many cards qualify for the sweep and are not yet taken.
pub open spec fn count_untaken(s: Seq<MembershipCard>, now: i64, taken: Seq<u64>) -> int
    decreases s.len(),
{
    if s.len() == 0 {
        0
    } else {
        count_untaken(s.drop_last(), now, taken) + if needs_verification(s.last(), now)
            && !taken.contains(s.last().id) {
            1int
        } else {
            0int
        }
    }
}

/// With nothing taken, the untaken count is the qualifying count.
proof fn lemma_count_untaken_empty(s: Seq<MembershipCard>, now: i64)
    ensures
        count_untaken(s, now, Seq::empty()) == count_needing_verification(s, now),
    decreases s.len(),
{
    if s.len() > 0 {
        lemma_count_untaken_empty(s.drop_last(), now);
    }
}

/// The untaken count never goes below zero.
proof fn lemma_count_untaken_nonneg(s: Seq<MembershipCard>, now: i64, taken: Seq<u64>)
    ensures
        count_untaken(s, now, taken) >= 0,
    decreases s.len(),
{
    if s.len() > 0 {
        lemma_count_untaken_nonneg(s.drop_last(), now, taken);
    }
}

/// Taking an identifier no card carries changes nothing.
proof fn lemma_count_untaken_fresh(s: Seq<MembershipCard>, now: i64, taken: Seq<u64>, x: u64)
    requires
        forall|j: int| 0 <= j < s.len() ==> (#[trigger] s[j]).id != x,
    ensures
        count_untaken(s, now, taken.push(x)) == count_untaken(s, now, taken),
    decreases s.len(),
{
    if s.len() > 0 {
        lemma_count_untaken_fresh(s.drop_last(), now, taken, x);
        assert(s.last().id != x);
        assert(taken.push(x).contains(s.last().id) <==> taken.contains(s.last().id)) by {
            if taken.push(x).contains(s.last().id) {
                let k = choose|k: int|
                    0 <= k < taken.push(x).len() && taken.push(x)[k] == s.last().id;
                if k < taken.len() {
                    assert(taken[k] == s.last().id);
                }
            }
            if taken.contains(s.last().id) {
                let k = choose|k: int| 0 <= k < taken.len() && taken[k] == s.last().id;
                assert(taken.push(x)[k] == s.last().id);
            }
        }
    }
}

/// Taking a qualifying untaken card's identifier lowers the untaken count by
/// exactly one, when identifiers are distinct.
proof fn lemma_count_untaken_take(s: Seq<MembershipCard>, now: i64, taken: Seq<u64>, b: int)
    requires
        ids_unique(s),
        0 <= b < s.len(),
        needs_verification(s[b], now),
        !taken.contains(s[b].id),
    ensures
        count_untaken(s, now, taken.push(s[b].id)) == count_untaken(s, now, taken) - 1,
    decreases s.len(),
{
    let x = s[b].id;
    if b == s.len() - 1 {
        assert forall|j: int| 0 <= j < s.drop_last().len() implies (#[trigger] s.drop_last()[j]).id
            != x by {
            assert(s[j].id != s[b].id);
        }
        lemma_count_untaken_fresh(s.drop_last(), now, taken, x);
        assert(taken.push(x).contains(x)) by {
            assert(taken.push(x)[taken.len() as int] == x);
        }
    } else {
        assert forall|i2: int, j2: int|
            0 <= i2 < j2 < s.drop_last().len() implies (#[trigger] s.drop_last()[i2].id) != (
        #[trigger] s.drop_last()[j2].id) by {
            assert(s[i2].id != s[j2].id);
        }
        assert(s.drop_last()[b] == s[b]);
        lemma_count_untaken_take(s.drop_last(), now, taken, b);
        assert(s.last().id != x) by {
            assert(s[s.len() - 1].id != s[b].id);
        }
        assert(taken.push(x).contains(s.last().id) <==> taken.contains(s.last().id)) by {
            if taken.push(x).contains(s.last().id) {
                let k = choose|k: int|
                    0 <= k < taken.push(x).len() && taken.push(x)[k] == s.last().id;
                if k < taken.len() {
                    assert(taken[k] == s.last().id);
                }
            }
            if taken.contains(s.last().id) {
                let k = choose|k: int| 0 <= k < taken.len() && taken[k] == s.last().id;
                assert(taken.push(x)[k] == s.last().id);
            }
        }
    }
}

/// When every qualifying card is taken, the untaken count is zero.
proof fn lemma_count_untaken_none(s: Seq<MembershipCard>, now: i64, taken: Seq<u64>)
    requires
        forall|j: int|
            0 <= j < s.len() ==> !(needs_verification(#[trigger] s[j], now) && !taken.contains(
                s[j].id,
            )),
    ensures
        count_untaken(s, now, taken) == 0,
    decreases s.len(),
{
    if s.len() > 0 {
        assert forall|j: int|
            0 <= j < s.drop_last().len() implies !(needs_verification(
            #[trigger] s.drop_last()[j],
            now,
        ) && !taken.contains(s.drop_last()[j].id)) by {
            assert(s.drop_last()[j] == s[j]);
        }
        lemma_count_untaken_none(s.drop_last(), now, taken);
    }
}

impl CardStore {
    /// An empty store.
    pub fn new() -> (r: CardStore)
        ensures
            store_wf(&r),
            r.cards@.len() == 0,
            r.next_id == 1,
    {
        CardStore { cards: Vec::new(), next_id: 1 }
    }

    /// The index of the card with the identifier, if any.
    fn index_of(&self, id: u64) -> (r: Option<usize>)
        ensures
            match r {
                Some(i) => i < self.cards@.len() && self.cards@[i as int].id == id,
                None => !has_card(self.cards@, id),
            },
    {
        let mut i: usize = 0;
        while i < self.cards.len()
            invariant
                i <= self.cards@.len(),
                forall|j: int| 0 <= j < i ==> (#[trigger] self.cards@[j]).id != id,
            decreases self.cards@.len() - i,
        {
            if self.cards[i].id == id {
                return Some(i);
            }
            i = i + 1;
        }
        None
    }

    /// Creates a new card: within one operation of the store, marks every
    /// not-yet-deleted card of the same issuer/member pair Deleted, then
    /// inserts the new card as Active with a thirty-day expiry and no
    /// failures. Returns the new card.
    pub fn create(&mut self, data: CreateCardData, now: i64) -> (r: MembershipCard)
        requires
            store_wf(old(self)),
            0 <= now <= i64::MAX - 30 * 86400,
            old(self).next_id < u64::MAX,
        ensures
            store_wf(final(self)),
            final(self).cards@.len() == old(self).cards@.len() + 1,
            forall|i: int|
                0 <= i < old(self).cards@.len() ==> final(self).cards@[i] == superseded_card(
                    #[trigger] old(self).cards@[i],
                    data.issuer_id,
                    data.member_id,
                    now,
                ),
            final(self).cards@.last() == fresh_card(old(self).next_id, data, now),
            r == fresh_card(old(self).next_id, data, now),
            final(self).next_id == old(self).next_id + 1,
    {
        let issuer_id = data.issuer_id;
        let member_id = data.member_id;
        let n = self.cards.len();
        let mut i: usize = 0;
        while i < n
            invariant
                i <= n,
                n == self.cards@.len(),
                self.cards@.len() == old(self).cards@.len(),
                self.next_id == old(self).next_id,
                issuer_id == data.issuer_id,
                member_id == data.member_id,
                forall|j: int|
                    0 <= j < i ==> self.cards@[j] == superseded_card(
                        #[trigger] old(self).cards@[j],
                        data.issuer_id,
                        data.member_id,
                        now,
                    ),
                forall|j: int| i <= j < n ==> self.cards@[j] == old(self).cards@[j],
            decreases n - i,
        {
            let is_pair = self.cards[i].issuer_id == issuer_id && self.cards[i].member_id
                == member_id;
            let is_deleted = match self.cards[i].status {
                CardStatus::Deleted => true,
                _ => false,
            };
            if is_pair && !is_deleted {
                self.cards[i].status = CardStatus::Deleted;
                self.cards[i].deleted_at = Some(now);
            }
            i = i + 1;
        }
        let id = self.next_id;
        let card = MembershipCard {
            id,
            issuer_id: data.issuer_id,
            member_id: data.member_id,
            membership_level_label: data.membership_level_label,
            membership_confirmed_at: data.membership_confirmed_at,
            verification_comment_id: data.verification_comment_id,
            verification_video_id: data.verification_video_id,
            snapshot_json: data.snapshot_json,
            status: CardStatus::Active,
            expires_at: Some(now + 30 * 86400),
            last_verified_at: None,
            verification_failures: 0,
            deleted_at: None,
            issued_at: now,
            wallet_transaction_id: None,
            wallet_qr_code: None,
            wallet_deep_link: None,
            wallet_cid: None,
            wallet_scanned_at: None,
        };
        let result = card.duplicate();
        self.cards.push(card);
        self.next_id = self.next_id + 1;
        proof {
            let s = self.cards@;
            let olds = old(self).cards@;
            assert(s.last() == fresh_card(old(self).next_id, data, now));
            assert forall|a: int, b: int| 0 <= a < b < s.len() implies (#[trigger] s[a].id) != (
            #[trigger] s[b].id) by {
                if b < s.len() - 1 {
                    assert(s[a].id == olds[a].id && s[b].id == olds[b].id);
                } else {
                    assert(s[a].id == olds[a].id && olds[a].id < old(self).next_id);
                }
            }
            assert forall|a: int, b: int|
                0 <= a < s.len() && 0 <= b < s.len() && a != b && (#[trigger] s[a]).issuer_id == (
                #[trigger] s[b]).issuer_id && s[a].member_id == s[b].member_id implies !(
            s[a].status is Active && s[b].status is Active) by {
                if a < s.len() - 1 && b < s.len() - 1 {
                    assert(s[a] == superseded_card(olds[a], data.issuer_id, data.member_id, now));
                    assert(s[b] == superseded_card(olds[b], data.issuer_id, data.member_id, now));
                } else if a == s.len() - 1 {
                    assert(s[b] == superseded_card(olds[b], data.issuer_id, data.member_id, now));
                } else {
                    assert(s[a] == superseded_card(olds[a], data.issuer_id, data.member_id, now));
                }
            }
            assert forall|a: int| 0 <= a < s.len() implies (#[trigger] s[a]).id
                < self.next_id by {
                if a < s.len() - 1 {
                    assert(s[a].id == olds[a].id && olds[a].id < old(self).next_id);
                }
            }
            assert forall|a: int| 0 <= a < s.len() implies (
            #[trigger] s[a]).verification_failures >= 0 by {
                if a < s.len() - 1 {
                    assert(s[a] == superseded_card(olds[a], data.issuer_id, data.member_id, now));
                    assert(s[a].verification_failures == olds[a].verification_failures);
                }
            }
        }
        result
    }

    /// Extends the card's expiry by the given days, marks it just verified,
    /// and resets its failure count to zero. A missing identifier changes
    /// nothing.
    pub fn extend_expiration(&mut self, id: u64, days: i64, now: i64)
        requires
            store_wf(old(self)),
            0 <= days <= 36500,
            0 <= now <= i64::MAX - 36500 * 86400,
        ensures
            store_wf(final(self)),
            final(self).cards@.len() == old(self).cards@.len(),
            final(self).next_id == old(self).next_id,
            forall|i: int|
                0 <= i < old(self).cards@.len() ==> final(self).cards@[i] == (if old(self).cards@[i].id
                    == id {
                    extended_card(#[trigger] old(self).cards@[i], days, now)
                } else {
                    old(self).cards@[i]
                }),
    {
        let idx = self.index_of(id);
        if let Some(i) = idx {
            let secs: i64 = days * 86400;
            self.cards[i].expires_at = Some(now + secs);
            self.cards[i].last_verified_at = Some(now);
            self.cards[i].verification_failures = 0;
            proof {
                assert forall|a: int| 0 <= a < old(self).cards@.len() implies self.cards@[a] == (
                if old(self).cards@[a].id == id {
                    extended_card(#[trigger] old(self).cards@[a], days, now)
                } else {
                    old(self).cards@[a]
                }) by {
                    if a != i {
                        assert(old(self).cards@[a].id != id);
                    }
                }
            }
        }
    }

    /// Increments the card's failure count, marks it just verified, and
    /// returns the new count; nothing for a missing identifier.
    pub fn increment_verification_failure(&mut self, id: u64, now: i64) -> (r: Option<i32>)
        requires
            store_wf(old(self)),
            forall|i: int|
                0 <= i < old(self).cards@.len() && (#[trigger] old(self).cards@[i]).id == id ==> old(
                    self,
                ).cards@[i].verification_failures < i32::MAX,
        ensures
            store_wf(final(self)),
            final(self).cards@.len() == old(self).cards@.len(),
            final(self).next_id == old(self).next_id,
            forall|i: int|
                0 <= i < old(self).cards@.len() ==> final(self).cards@[i] == (if old(self).cards@[i].id
                    == id {
                    failed_card(#[trigger] old(self).cards@[i], now)
                } else {
                    old(self).cards@[i]
                }),
            r is Some <==> has_card(old(self).cards@, id),
            forall|i: int|
                0 <= i < old(self).cards@.len() && (#[trigger] old(self).cards@[i]).id == id ==> r
                    == Some((old(self).cards@[i].verification_failures + 1) as i32),
    {
        let idx = self.index_of(id);
        if let Some(i) = idx {
            let count = self.cards[i].verification_failures + 1;
            self.cards[i].verification_failures = count;
            self.cards[i].last_verified_at = Some(now);
            proof {
                assert(has_card(old(self).cards@, id));
                assert forall|a: int| 0 <= a < old(self).cards@.len() implies self.cards@[a] == (
                if old(self).cards@[a].id == id {
                    failed_card(#[trigger] old(self).cards@[a], now)
                } else {
                    old(self).cards@[a]
                }) by {
                    if a != i {
                        assert(old(self).cards@[a].id != id);
                    }
                }
            }
            Some(count)
        } else {
            None
        }
    }

    /// Replaces the card's status; used to force Expired once the failure
    /// threshold is crossed, or Revoked/Suspended administratively. Only
    /// transitions away from Active are taken, so the store invariant holds.
    pub fn set_status(&mut self, id: u64, status: CardStatus)
        requires
            store_wf(old(self)),
            !(status is Active),
        ensures
            store_wf(final(self)),
            final(self).cards@.len() == old(self).cards@.len(),
            final(self).next_id == old(self).next_id,
            forall|i: int|
                0 <= i < old(self).cards@.len() ==> final(self).cards@[i] == (if old(self).cards@[i].id
                    == id {
                    with_status(#[trigger] old(self).cards@[i], status)
                } else {
                    old(self).cards@[i]
                }),
    {
        let idx = self.index_of(id);
        if let Some(i) = idx {
            self.cards[i].status = status;
            proof {
                assert forall|a: int| 0 <= a < old(self).cards@.len() implies self.cards@[a] == (
                if old(self).cards@[a].id == id {
                    with_status(#[trigger] old(self).cards@[a], status)
                } else {
                    old(self).cards@[a]
                }) by {
                    if a != i {
                        assert(old(self).cards@[a].id != id);
                    }
                }
            }
        }
    }

    /// The card with the identifier, if any.
    pub fn find_by_id(&self, id: u64) -> (r: Option<MembershipCard>)
        ensures
            match r {
                Some(c) => has_card(self.cards@, id) && c.id == id && exists|i: int|
                    0 <= i < self.cards@.len() && #[trigger] self.cards@[i] == c,
                None => !has_card(self.cards@, id),
            },
    {
        match self.index_of(id) {
            Some(i) => {
                let c = self.cards[i].duplicate();
                proof {
                    assert(self.cards@[i as int] == c);
                }
                Some(c)
            },
            None => None,
        }
    }

    /// The active and unexpired cards of an issuer/member pair; used to
    /// reject a duplicate claim. In a well-formed store there is at most one.
    pub fn find_active_unexpired_cards(&self, issuer_id: u64, member_id: u64, now: i64) -> (r: Vec<
        MembershipCard,
    >)
        ensures
            r@ == active_unexpired_of(self.cards@, issuer_id, member_id, now),
            forall|k: int|
                0 <= k < r@.len() ==> (#[trigger] r@[k]).issuer_id == issuer_id && r@[k].member_id
                    == member_id && active_unexpired(r@[k], now) && exists|i: int|
                    0 <= i < self.cards@.len() && #[trigger] self.cards@[i] == r@[k],
            r@.len() == 0 ==> forall|i: int|
                0 <= i < self.cards@.len() ==> !((#[trigger] self.cards@[i]).issuer_id == issuer_id
                    && self.cards@[i].member_id == member_id && active_unexpired(
                    self.cards@[i],
                    now,
                )),
    {
        let mut out: Vec<MembershipCard> = Vec::new();
        let mut i: usize = 0;
        while i < self.cards.len()
            invariant
                i <= self.cards@.len(),
                out@ == active_unexpired_of(
                    self.cards@.subrange(0, i as int),
                    issuer_id,
                    member_id,
                    now,
                ),
                forall|k: int|
                    0 <= k < out@.len() ==> (#[trigger] out@[k]).issuer_id == issuer_id
                        && out@[k].member_id == member_id && active_unexpired(out@[k], now)
                        && exists|j: int|
                        0 <= j < self.cards@.len() && #[trigger] self.cards@[j] == out@[k],
                out@.len() == 0 ==> forall|j: int|
                    0 <= j < i ==> !((#[trigger] self.cards@[j]).issuer_id == issuer_id
                        && self.cards@[j].member_id == member_id && active_unexpired(
                        self.cards@[j],
                        now,
                    )),
            decreases self.cards@.len() - i,
        {
            proof {
                assert(self.cards@.subrange(0, i as int + 1).drop_last() =~= self.cards@.subrange(
                    0,
                    i as int,
                ));
                assert(self.cards@.subrange(0, i as int + 1).last() == self.cards@[i as int]);
            }
            let c = &self.cards[i];
            let is_active = match c.status {
                CardStatus::Active => true,
                _ => false,
            };
            let unexpired = match c.expires_at {
                Some(e) => e > now,
                None => true,
            };
            if c.issuer_id == issuer_id && c.member_id == member_id && is_active && unexpired {
                let copy = self.cards[i].duplicate();
                proof {
                    assert(self.cards@[i as int] == copy);
                }
                out.push(copy);
            }
            i = i + 1;
            proof {
                assert(out@ =~= active_unexpired_of(
                    self.cards@.subrange(0, i as int),
                    issuer_id,
                    member_id,
                    now,
                ));
            }
        }
        proof {
            assert(self.cards@.subrange(0, self.cards@.len() as int) =~= self.cards@);
        }
        out
    }

    /// Attaches the wallet transaction, QR code and deep link to the card.
    pub fn set_wallet_qr(
        &mut self,
        id: u64,
        transaction_id: String,
        qr_code: String,
        deep_link: Option<String>,
    )
        requires
            store_wf(old(self)),
        ensures
            store_wf(final(self)),
            final(self).cards@.len() == old(self).cards@.len(),
            final(self).next_id == old(self).next_id,
            forall|i: int|
                0 <= i < old(self).cards@.len() ==> final(self).cards@[i] == (if old(
                    self,
                ).cards@[i].id == id {
                    MembershipCard {
                        wallet_transaction_id: Some(transaction_id),
                        wallet_qr_code: Some(qr_code),
                        wallet_deep_link: deep_link,
                        ..(#[trigger] old(self).cards@[i])
                    }
                } else {
                    old(self).cards@[i]
                }),
    {
        let idx = self.index_of(id);
        if let Some(i) = idx {
            self.cards[i].wallet_transaction_id = Some(transaction_id);
            self.cards[i].wallet_qr_code = Some(qr_code);
            self.cards[i].wallet_deep_link = deep_link;
            proof {
                assert forall|a: int|
                    0 <= a < old(self).cards@.len() && a != i implies self.cards@[a] == old(
                    self,
                ).cards@[a] && old(self).cards@[a].id != id by {}
            }
        }
    }

    /// Records the wallet-side scan: stores the credential identifier and the
    /// scan time on the card.
    pub fn mark_wallet_scanned(&mut self, id: u64, cid: String, now: i64)
        requires
            store_wf(old(self)),
        ensures
            store_wf(final(self)),
            final(self).cards@.len() == old(self).cards@.len(),
            final(self).next_id == old(self).next_id,
            forall|i: int|
                0 <= i < old(self).cards@.len() ==> final(self).cards@[i] == (if old(self).cards@[i].id
                    == id {
                    MembershipCard {
                        wallet_cid: Some(cid),
                        wallet_scanned_at: Some(now),
                        ..(#[trigger] old(self).cards@[i])
                    }
                } else {
                    old(self).cards@[i]
                }),
    {
        let idx = self.index_of(id);
        if let Some(i) = idx {
            self.cards[i].wallet_cid = Some(cid);
            self.cards[i].wallet_scanned_at = Some(now);
            proof {
                assert forall|a: int|
                    0 <= a < old(self).cards@.len() && a != i implies old(self).cards@[a].id
                        != id by {}
            }
        }
    }

    /// The card holding the wallet transaction identifier, if any.
    pub fn find_by_wallet_transaction_id(&self, transaction_id: &str) -> (r: Option<
        MembershipCard,
    >)
        ensures
            match r {
                Some(c) => c.wallet_transaction_id matches Some(t) && t@ == transaction_id@
                    && exists|i: int| 0 <= i < self.cards@.len() && #[trigger] self.cards@[i] == c,
                None => forall|i: int|
                    0 <= i < self.cards@.len() ==> !((#[trigger] self.cards@[i]).wallet_transaction_id
                         matches Some(t) && t@ == transaction_id@),
            },
    {
        let mut i: usize = 0;
        while i < self.cards.len()
            invariant
                i <= self.cards@.len(),
                forall|j: int|
                    0 <= j < i ==> !((#[trigger] self.cards@[j]).wallet_transaction_id matches Some(
                        t,
                    ) && t@ == transaction_id@),
            decreases self.cards@.len() - i,
        {
            let matches_tx = match &self.cards[i].wallet_transaction_id {
                Some(t) => strutil::chars_eq(t.as_str(), transaction_id),
                None => false,
            };
            if matches_tx {
                let c = self.cards[i].duplicate();
                proof {
                    assert(self.cards@[i as int] == c);
                }
                return Some(c);
            }
            i = i + 1;
        }
        None
    }

    /// Identifiers of up to `limit` cards that the sweep should re-verify:
    /// Active and not verified within the last day, oldest first with the
    /// never-verified ones ahead. When no more than `limit` cards qualify,
    /// all of them are returned; otherwise exactly `limit` of the oldest.
    pub fn find_cards_needing_verification(&self, now: i64, limit: usize) -> (r: Vec<u64>)
        requires
            store_wf(self),
            now >= i64::MIN + 86400,
        ensures
            r@.len() == (if count_needing_verification(self.cards@, now) <= limit {
                count_needing_verification(self.cards@, now)
            } else {
                limit as int
            }),
            forall|k: int|
                0 <= k < r@.len() ==> sweep_candidate(self.cards@, #[trigger] r@[k], now),
            forall|k1: int, k2: int| 0 <= k1 < k2 < r@.len() ==> r@[k1] != r@[k2],
            forall|k1: int, k2: int|
                0 <= k1 < k2 < r@.len() ==> sweep_key(self.cards@, #[trigger] r@[k1]) <= sweep_key(
                    self.cards@,
                    #[trigger] r@[k2],
                ),
    {
        let cards_len = self.cards.len();
        let mut out: Vec<u64> = Vec::new();
        let ghost mut src: Seq<int> = Seq::empty();
        let mut done = false;
        proof {
            lemma_count_untaken_empty(self.cards@, now);
        }
        while out.len() < limit && !done
            invariant
                store_wf(self),
                cards_len == self.cards@.len(),
                out@.len() <= limit,
                out@.len() == src.len(),
                forall|k: int|
                    #![trigger src[k]]
                    0 <= k < src.len() ==> 0 <= src[k] < self.cards@.len() && (
                    #[trigger] self.cards@[src[k]]).id == out@[k] && needs_verification(
                        self.cards@[src[k]],
                        now,
                    ),
                forall|k1: int, k2: int| 0 <= k1 < k2 < out@.len() ==> out@[k1] != out@[k2],
                forall|k1: int, k2: int|
                    0 <= k1 < k2 < src.len() ==> stale_key(self.cards@[src[k1]]) <= stale_key(
                        self.cards@[src[k2]],
                    ),
                forall|k: int, j: int|
                    0 <= k < src.len() && 0 <= j < self.cards@.len() && needs_verification(
                        #[trigger] self.cards@[j],
                        now,
                    ) && !out@.contains(self.cards@[j].id) ==> stale_key(
                        self.cards@[#[trigger] src[k]],
                    ) <= stale_key(self.cards@[j]),
                out@.len() + count_untaken(self.cards@, now, out@) == count_needing_verification(
                    self.cards@,
                    now,
                ),
                done ==> count_untaken(self.cards@, now, out@) == 0,
            decreases limit - out@.len() + (if done {
                0int
            } else {
                1int
            }),
        {
            let mut best: Option<usize> = None;
            let mut i: usize = 0;
            while i < cards_len
                invariant
                    cards_len == self.cards@.len(),
                    i <= cards_len,
                    match best {
                        Some(b) => b < i && needs_verification(self.cards@[b as int], now)
                            && !out@.contains(self.cards@[b as int].id) && (forall|j: int|
                            0 <= j < i && needs_verification(#[trigger] self.cards@[j], now)
                                && !out@.contains(self.cards@[j].id) ==> stale_key(
                                self.cards@[b as int],
                            ) <= stale_key(self.cards@[j])),
                        None => forall|j: int|
                            0 <= j < i ==> !(needs_verification(#[trigger] self.cards@[j], now)
                                && !out@.contains(self.cards@[j].id)),
                    },
                decreases cards_len - i,
            {
                let c = &self.cards[i];
                let is_active = match c.status {
                    CardStatus::Active => true,
                    _ => false,
                };
                let stale = match c.last_verified_at {
                    Some(t) => t < now - 86400,
                    None => true,
                };
                if is_active && stale && !strutil::contains_u64(&out, c.id) {
                    let better = match best {
                        None => true,
                        Some(b) => key_less(&self.cards[i], &self.cards[b]),
                    };
                    if better {
                        best = Some(i);
                    }
                }
                i = i + 1;
            }
            match best {
                Some(b) => {
                    let cid = self.cards[b].id;
                    let ghost old_out = out@;
                    proof {
                        assert forall|k: int| 0 <= k < out@.len() implies out@[k] != cid by {
                            assert(self.cards@[src[k]].id != self.cards@[b as int].id || src[k]
                                == b as int);
                        }
                        lemma_count_untaken_take(self.cards@, now, out@, b as int);
                    }
                    out.push(cid);
                    proof {
                        src = src.push(b as int);
                        assert forall|j: int|
                            0 <= j < self.cards@.len() && needs_verification(
                                #[trigger] self.cards@[j],
                                now,
                            ) && !out@.contains(self.cards@[j].id) implies !old_out.contains(
                            self.cards@[j].id,
                        ) by {
                            if old_out.contains(self.cards@[j].id) {
                                let k = choose|k: int|
                                    0 <= k < old_out.len() && old_out[k] == self.cards@[j].id;
                                assert(out@[k] == self.cards@[j].id);
                                assert(out@.contains(self.cards@[j].id));
                            }
                        }
                        assert forall|k: int, j: int|
                            0 <= k < src.len() && 0 <= j < self.cards@.len() && needs_verification(
                                #[trigger] self.cards@[j],
                                now,
                            ) && !out@.contains(self.cards@[j].id) implies stale_key(
                            self.cards@[#[trigger] src[k]],
                        ) <= stale_key(self.cards@[j]) by {
                            assert(!old_out.contains(self.cards@[j].id));
                        }
                    }
                },
                None => {
                    proof {
                        lemma_count_untaken_none(self.cards@, now, out@);
                    }
                    done = true;
                },
            }
        }
        proof {
            if out@.len() < limit {
                assert(count_untaken(self.cards@, now, out@) == 0);
            } else {
                lemma_count_untaken_nonneg(self.cards@, now, out@);
            }
            assert forall|k: int| 0 <= k < out@.len() implies sweep_candidate(
                self.cards@,
                #[trigger] out@[k],
                now,
            ) by {
                assert(0 <= src[k] < self.cards@.len() && self.cards@[src[k]].id == out@[k]
                    && needs_verification(self.cards@[src[k]], now));
            }
            assert forall|k1: int, k2: int| 0 <= k1 < k2 < out@.len() implies sweep_key(
                self.cards@,
                #[trigger] out@[k1],
            ) <= sweep_key(self.cards@, #[trigger] out@[k2]) by {
                let c1 = choose|i: int|
                    0 <= i < self.cards@.len() && (#[trigger] self.cards@[i]).id == out@[k1];
                let c2 = choose|i: int|
                    0 <= i < self.cards@.len() && (#[trigger] self.cards@[i]).id == out@[k2];
                assert(self.cards@[src[k1]].id == out@[k1]);
                assert(self.cards@[src[k2]].id == out@[k2]);
                if c1 != src[k1] {
                    assert(self.cards@[c1].id != self.cards@[src[k1]].id);
                }
                if c2 != src[k2] {
                    assert(self.cards@[c2].id != self.cards@[src[k2]].id);
                }
                assert(stale_key(self.cards@[src[k1]]) <= stale_key(self.cards@[src[k2]]));
            }
        }
        out
    }

    /// Soft-deletes a card: marks it Deleted with the deletion time, once;
    /// an already deleted card keeps its original deletion time.
    pub fn soft_delete(&mut self, id: u64, now: i64)
        requires
            store_wf(old(self)),
        ensures
            store_wf(final(self)),
            final(self).cards@.len() == old(self).cards@.len(),
            final(self).next_id == old(self).next_id,
            forall|i: int|
                0 <= i < old(self).cards@.len() ==> final(self).cards@[i] == (if old(
                    self,
                ).cards@[i].id == id && !((#[trigger] old(self).cards@[i]).status is Deleted) {
                    MembershipCard {
                        status: CardStatus::Deleted,
                        deleted_at: Some(now),
                        ..old(self).cards@[i]
                    }
                } else {
                    old(self).cards@[i]
                }),
    {
        let idx = self.index_of(id);
        if let Some(i) = idx {
            let already = match self.cards[i].status {
                CardStatus::Deleted => true,
                _ => false,
            };
            if !already {
                self.cards[i].status = CardStatus::Deleted;
                self.cards[i].deleted_at = Some(now);
            }
            proof {
                assert forall|a: int| 0 <= a < old(self).cards@.len() && a != i implies old(
                    self,
                ).cards@[a].id != id by {
                    assert(old(self).cards@[a].id != old(self).cards@[i as int].id);
                }
            }
        }
    }

    /// Some Active card of the issuer/member pair, when one exists. In a
    /// well-formed store there is at most one.
    pub fn find_active_for_member(&self, issuer_id: u64, member_id: u64) -> (r: Option<
        MembershipCard,
    >)
        ensures
            match r {
                Some(c) => c.issuer_id == issuer_id && c.member_id == member_id
                    && c.status is Active && exists|i: int|
                    0 <= i < self.cards@.len() && #[trigger] self.cards@[i] == c,
                None => forall|i: int|
                    0 <= i < self.cards@.len() ==> !((#[trigger] self.cards@[i]).issuer_id
                        == issuer_id && self.cards@[i].member_id == member_id
                        && self.cards@[i].status is Active),
            },
    {
        let mut i: usize = 0;
        while i < self.cards.len()
            invariant
                i <= self.cards@.len(),
                forall|j: int|
                    0 <= j < i ==> !((#[trigger] self.cards@[j]).issuer_id == issuer_id
                        && self.cards@[j].member_id == member_id
                        && self.cards@[j].status is Active),
            decreases self.cards@.len() - i,
        {
            let c = &self.cards[i];
            let is_active = match c.status {
                CardStatus::Active => true,
                _ => false,
            };
            if c.issuer_id == issuer_id && c.member_id == member_id && is_active {
                let copy = self.cards[i].duplicate();
                proof {
                    assert(self.cards@[i as int] == copy);
                }
                return Some(copy);
            }
            i = i + 1;
        }
        None
    }

    /// The not-deleted cards of a member, across issuers, in store order.
    pub fn list_by_member(&self, member_id: u64) -> (r: Vec<MembershipCard>)
        ensures
            r@ == member_cards_of(self.cards@, member_id),
            forall|k: int|
                0 <= k < r@.len() ==> (#[trigger] r@[k]).member_id == member_id && !(
                r@[k].status is Deleted) && exists|i: int|
                    0 <= i < self.cards@.len() && #[trigger] self.cards@[i] == r@[k],
    {
        let mut out: Vec<MembershipCard> = Vec::new();
        let mut i: usize = 0;
        while i < self.cards.len()
            invariant
                i <= self.cards@.len(),
                out@ == member_cards_of(self.cards@.subrange(0, i as int), member_id),
                forall|k: int|
                    0 <= k < out@.len() ==> (#[trigger] out@[k]).member_id == member_id && !(
                    out@[k].status is Deleted) && exists|j: int|
                        0 <= j < self.cards@.len() && #[trigger] self.cards@[j] == out@[k],
            decreases self.cards@.len() - i,
        {
            proof {
                assert(self.cards@.subrange(0, i as int + 1).drop_last() =~= self.cards@.subrange(
                    0,
                    i as int,
                ));
            }
            let c = &self.cards[i];
            let deleted = match c.status {
                CardStatus::Deleted => true,
                _ => false,
            };
            if c.member_id == member_id && !deleted {
                let copy = self.cards[i].duplicate();
                proof {
                    assert(self.cards@[i as int] == copy);
                }
                out.push(copy);
            }
            i = i + 1;
            proof {
                assert(out@ =~= member_cards_of(self.cards@.subrange(0, i as int), member_id));
            }
        }
        proof {
            assert(self.cards@.subrange(0, self.cards@.len() as int) =~= self.cards@);
        }
        out
    }

    /// The number of Active cards of an issuer.
    pub fn count_by_issuer(&self, issuer_id: u64) -> (r: u64)
        requires
            self.cards@.len() < u64::MAX,
        ensures
            r == count_active_of_issuer(self.cards@, issuer_id),
    {
        let mut count: u64 = 0;
        let mut i: usize = 0;
        while i < self.cards.len()
            invariant
                i <= self.cards@.len(),
                self.cards@.len() < u64::MAX,
                count == count_active_of_issuer(self.cards@.subrange(0, i as int), issuer_id),
                count <= i,
            decreases self.cards@.len() - i,
        {
            proof {
                assert(self.cards@.subrange(0, i as int + 1).drop_last() =~= self.cards@.subrange(
                    0,
                    i as int,
                ));
            }
            let c = &self.cards[i];
            let is_active = match c.status {
                CardStatus::Active => true,
                _ => false,
            };
            if c.issuer_id == issuer_id && is_active {
                count = count + 1;
            }
            i = i + 1;
        }
        proof {
            assert(self.cards@.subrange(0, self.cards@.len() as int) =~= self.cards@);
        }
        count
    }
}

/// How many cards of a sequence are Active cards of the issuer.
pub open spec fn count_active_of_issuer(s: Seq<MembershipCard>, issuer_id: u64) -> int
    decreases s.len(),
{
    if s.len() == 0 {
        0
    } else {
        count_active_of_issuer(s.drop_last(), issuer_id) + if s.last().issuer_id == issuer_id
            && s.last().status is Active {
            1int
        } else {
            0int
        }
    }
}

/// Law (invariant I1): in a well-formed store, for every issuer/member pair
/// and every moment, at most one card is Active and unexpired. Every store
/// operation ensures well-formedness, so this holds after any sequence of
/// operations.
pub proof fn lemma_at_most_one_active_unexpired(
    s: Seq<MembershipCard>,
    i: int,
    j: int,
    now: i64,
)
    requires
        one_active_per_pair(s),
        0 <= i < s.len(),
        0 <= j < s.len(),
        i != j,
        s[i].issuer_id == s[j].issuer_id,
        s[i].member_id == s[j].member_id,
    ensures
        !(active_unexpired(s[i], now) && active_unexpired(s[j], now)),
{
}

/// Law (supersession): creating a card for a pair leaves every prior card of
/// that pair non-Active, and the new card Active.
pub proof fn lemma_supersession(c: MembershipCard, id: u64, data: CreateCardData, now: i64)
    requires
        c.issuer_id == data.issuer_id,
        c.member_id == data.member_id,
    ensures
        !(superseded_card(c, data.issuer_id, data.member_id, now).status is Active),
        fresh_card(id, data, now).status is Active,
{
}

/// Law (reset on success): extension resets the failure count to zero,
/// whatever it was before.
pub proof fn lemma_extend_resets_failures(c: MembershipCard, days: i64, now: i64)
    ensures
        extended_card(c, days, now).verification_failures == 0,
{
}

} // verus!
