//! The append-only audit log of verification outcomes, the per-event scan
//! statistics derived from it, and the paging of its listings.
use vstd::prelude::*;

use crate::strutil;
use vstd::string::StringExecFns;

verus! {

/// One recorded verification or scan outcome. Written once, never mutated.
#[derive(Debug)]
pub struct VerificationEvent {
    pub id: u64,
    pub event_id: u64,
    pub card_id: Option<u64>,
    pub verification_result: String,
    pub verification_context: Option<String>,
    pub raw_payload: Option<String>,
    pub verified_at: i64,
}

/// What a new audit entry is made from.
#[derive(Debug)]
pub struct CreateVerificationEventData {
    pub event_id: u64,
    pub card_id: Option<u64>,
    pub verification_result: String,
    pub verification_context: Option<String>,
    pub raw_payload: Option<String>,
}

/// The append-only audit log.
pub struct AuditLog {
    pub events: Vec<VerificationEvent>,
    pub next_id: u64,
}

impl AuditLog {
    /// An empty log.
    pub fn new() -> (r: AuditLog)
        ensures
            r.events@.len() == 0,
            r.next_id == 1,
    {
        AuditLog { events: Vec::new(), next_id: 1 }
    }

    /// Appends one outcome. Nothing already in the log changes: every write
    /// only extends it.
    pub fn create_event(&mut self, data: CreateVerificationEventData, now: i64) -> (r: u64)
        requires
            old(self).next_id < u64::MAX,
        ensures
            final(self).events@.len() == old(self).events@.len() + 1,
            forall|i: int|
                0 <= i < old(self).events@.len() ==> final(self).events@[i] == #[trigger] old(
                    self,
                ).events@[i],
            final(self).events@.last().id == old(self).next_id,
            final(self).events@.last().event_id == data.event_id,
            final(self).events@.last().card_id == data.card_id,
            final(self).events@.last().verification_result == data.verification_result,
            final(self).events@.last().verification_context == data.verification_context,
            final(self).events@.last().raw_payload == data.raw_payload,
            final(self).events@.last().verified_at == now,
            final(self).next_id == old(self).next_id + 1,
            r == old(self).next_id,
    {
        let id = self.next_id;
        self.events.push(
            VerificationEvent {
                id,
                event_id: data.event_id,
                card_id: data.card_id,
                verification_result: data.verification_result,
                verification_context: data.verification_context,
                raw_payload: data.raw_payload,
                verified_at: now,
            },
        );
        self.next_id = self.next_id + 1;
        id
    }

    /// How many entries of an event carry the given result; with no result
    /// filter, how many entries the event has at all.
    pub fn count_by_event_and_result(&self, event_id: u64, result: Option<&str>) -> (r: u64)
        requires
            self.events@.len() < u64::MAX,
        ensures
            r == count_matching(
                self.events@,
                event_id,
                match result {
                    Some(t) => Some(t@),
                    None => None,
                },
            ),
    {
        let mut count: u64 = 0;
        let mut i: usize = 0;
        let ghost filter: Option<Seq<char>> = match result {
            Some(t) => Some(t@),
            None => None,
        };
        while i < self.events.len()
            invariant
                i <= self.events@.len(),
                self.events@.len() < u64::MAX,
                count <= i,
                count == count_matching(self.events@.subrange(0, i as int), event_id, filter),
                filter == (match result {
                    Some(t) => Some(t@),
                    None => None,
                }),
            decreases self.events@.len() - i,
        {
            proof {
                assert(self.events@.subrange(0, i as int + 1).drop_last() =~= self.events@.subrange(
                    0,
                    i as int,
                ));
            }
            let e = &self.events[i];
            let hit = e.event_id == event_id && (match result {
                Some(t) => strutil::chars_eq(e.verification_result.as_str(), t),
                None => true,
            });
            if hit {
                count = count + 1;
            }
            i = i + 1;
        }
        proof {
            assert(self.events@.subrange(0, self.events@.len() as int) =~= self.events@);
        }
        count
    }
}

/// Whether some entry of the sequence records the card under the event.
pub open spec fn event_has_card(s: Seq<VerificationEvent>, event_id: u64, cid: u64) -> bool {
    exists|i: int|
        0 <= i < s.len() && (#[trigger] s[i]).event_id == event_id && s[i].card_id == Some(cid)
}

/// How many distinct cards the event's entries name.
pub open spec fn count_unique_cards(s: Seq<VerificationEvent>, event_id: u64) -> int
    decreases s.len(),
{
    if s.len() == 0 {
        0
    } else {
        count_unique_cards(s.drop_last(), event_id) + (if s.last().event_id == event_id && (
        s.last().card_id matches Some(cid) && !event_has_card(s.drop_last(), event_id, cid)) {
            1int
        } else {
            0int
        })
    }
}

/// Whether the identifier stands in the list.
fn contains_id(seen: &Vec<u64>, cid: u64) -> (r: bool)
    ensures
        r == seen@.contains(cid),
{
    let mut i: usize = 0;
    while i < seen.len()
        invariant
            i <= seen@.len(),
            forall|j: int| 0 <= j < i ==> seen@[j] != cid,
        decreases seen@.len() - i,
    {
        if seen[i] == cid {
            proof {
                assert(seen@.contains(cid));
            }
            return true;
        }
        i = i + 1;
    }
    proof {
        assert(!seen@.contains(cid));
    }
    false
}

impl AuditLog {
    /// How many distinct cards the event's entries name.
    pub fn count_unique_cards_by_event(&self, event_id: u64) -> (r: u64)
        requires
            self.events@.len() < u64::MAX,
        ensures
            r == count_unique_cards(self.events@, event_id),
    {
        let mut seen: Vec<u64> = Vec::new();
        let mut count: u64 = 0;
        let mut i: usize = 0;
        while i < self.events.len()
            invariant
                i <= self.events@.len(),
                self.events@.len() < u64::MAX,
                count <= i,
                count == count_unique_cards(self.events@.subrange(0, i as int), event_id),
                forall|c: u64|
                    #![trigger seen@.contains(c)]
                    seen@.contains(c) <==> event_has_card(
                        self.events@.subrange(0, i as int),
                        event_id,
                        c,
                    ),
            decreases self.events@.len() - i,
        {
            let ghost prefix = self.events@.subrange(0, i as int);
            let ghost old_seen = seen@;
            proof {
                assert(self.events@.subrange(0, i as int + 1).drop_last() =~= prefix);
                assert(self.events@.subrange(0, i as int + 1).last() == self.events@[i as int]);
            }
            let e = &self.events[i];
            if e.event_id == event_id {
                match e.card_id {
                    Some(cid) => {
                        if !contains_id(&seen, cid) {
                            count = count + 1;
                            seen.push(cid);
                        }
                    },
                    None => {},
                }
            }
            i = i + 1;
            proof {
                lemma_seen_tracks_step(self.events@, i as int - 1, event_id, old_seen, seen@);
            }
        }
        proof {
            assert(self.events@.subrange(0, self.events@.len() as int) =~= self.events@);
        }
        count
    }

    /// Assembles the event's scan statistics from the log: every entry, the
    /// successful ones, the rest, and the distinct cards seen.
    pub fn event_stats(&self, event_id: u64) -> (r: EventStats)
        requires
            self.events@.len() < 0x7fffffffffffffff,
        ensures
            r.total_scans == count_matching(self.events@, event_id, None),
            r.successful_scans == count_matching(self.events@, event_id, Some("success"@)),
            r.failed_scans == r.total_scans - r.successful_scans,
            r.unique_cards == count_unique_cards(self.events@, event_id),
    {
        let total = self.count_by_event_and_result(event_id, None);
        let successful = self.count_by_event_and_result(event_id, Some("success"));
        let unique = self.count_unique_cards_by_event(event_id);
        proof {
            lemma_count_matching_bounds(self.events@, event_id, None);
            lemma_count_matching_bounds(self.events@, event_id, Some("success"@));
            lemma_count_matching_filter_le(self.events@, event_id, "success"@);
            lemma_count_unique_bounds(self.events@, event_id);
        }
        EventStats {
            total_scans: total as i64,
            successful_scans: successful as i64,
            failed_scans: (total - successful) as i64,
            unique_cards: unique as i64,
        }
    }
}

/// A count over a sequence never exceeds its length.
proof fn lemma_count_matching_bounds(
    s: Seq<VerificationEvent>,
    event_id: u64,
    result: Option<Seq<char>>,
)
    ensures
        0 <= count_matching(s, event_id, result) <= s.len(),
    decreases s.len(),
{
    if s.len() > 0 {
        lemma_count_matching_bounds(s.drop_last(), event_id, result);
    }
}

/// A filtered count never exceeds the unfiltered one.
proof fn lemma_count_matching_filter_le(s: Seq<VerificationEvent>, event_id: u64, result: Seq<char>)
    ensures
        count_matching(s, event_id, Some(result)) <= count_matching(s, event_id, None),
    decreases s.len(),
{
    if s.len() > 0 {
        lemma_count_matching_filter_le(s.drop_last(), event_id, result);
    }
}

/// The distinct-card count never exceeds the sequence's length.
proof fn lemma_count_unique_bounds(s: Seq<VerificationEvent>, event_id: u64)
    ensures
        0 <= count_unique_cards(s, event_id) <= s.len(),
    decreases s.len(),
{
    if s.len() > 0 {
        lemma_count_unique_bounds(s.drop_last(), event_id);
    }
}

/// One scan step keeps the seen-card list exact: after handling the entry at
/// `i`, the list holds exactly the cards the event's entries name among the
/// first `i + 1`.
proof fn lemma_seen_tracks_step(
    events: Seq<VerificationEvent>,
    i: int,
    event_id: u64,
    old_seen: Seq<u64>,
    new_seen: Seq<u64>,
)
    requires
        0 <= i < events.len(),
        forall|c: u64|
            #![trigger old_seen.contains(c)]
            old_seen.contains(c) <==> event_has_card(events.subrange(0, i), event_id, c),
        ({
            let entry = events[i];
            if entry.event_id == event_id {
                match entry.card_id {
                    Some(cid) => if old_seen.contains(cid) {
                        new_seen == old_seen
                    } else {
                        new_seen == old_seen.push(cid)
                    },
                    None => new_seen == old_seen,
                }
            } else {
                new_seen == old_seen
            }
        }),
    ensures
        forall|c: u64|
            #![trigger new_seen.contains(c)]
            new_seen.contains(c) <==> event_has_card(events.subrange(0, i + 1), event_id, c),
{
    let prefix = events.subrange(0, i);
    let now_prefix = events.subrange(0, i + 1);
    let entry = events[i];
    assert(now_prefix =~= prefix.push(entry));
    assert forall|c: u64|
        #![trigger new_seen.contains(c)]
        new_seen.contains(c) <==> event_has_card(now_prefix, event_id, c) by {
        lemma_seen_tracks_forward(prefix, now_prefix, entry, old_seen, new_seen, event_id, c);
        lemma_seen_tracks_backward(prefix, now_prefix, entry, old_seen, new_seen, event_id, c);
    }
}

/// Forward half of the step: a listed card is named among the entries.
proof fn lemma_seen_tracks_forward(
    prefix: Seq<VerificationEvent>,
    now_prefix: Seq<VerificationEvent>,
    entry: VerificationEvent,
    old_seen: Seq<u64>,
    new_seen: Seq<u64>,
    event_id: u64,
    c: u64,
)
    requires
        now_prefix == prefix.push(entry),
        forall|c2: u64|
            #![trigger old_seen.contains(c2)]
            old_seen.contains(c2) <==> event_has_card(prefix, event_id, c2),
        new_seen == old_seen || (new_seen == old_seen.push(new_seen.last()) && entry.event_id
            == event_id && entry.card_id == Some(new_seen.last())),
    ensures
        new_seen.contains(c) ==> event_has_card(now_prefix, event_id, c),
{
    if new_seen.contains(c) {
        let k = choose|k: int| 0 <= k < new_seen.len() && new_seen[k] == c;
        if k < old_seen.len() && new_seen == old_seen.push(new_seen.last()) {
            assert(old_seen[k] == c);
        }
        if old_seen.contains(c) {
            assert(event_has_card(prefix, event_id, c));
            let j = choose|j: int|
                0 <= j < prefix.len() && (#[trigger] prefix[j]).event_id == event_id
                    && prefix[j].card_id == Some(c);
            assert(now_prefix[j].event_id == event_id && now_prefix[j].card_id == Some(c));
        } else {
            assert(new_seen != old_seen);
            assert(c == new_seen.last());
            assert(now_prefix[now_prefix.len() - 1].event_id == event_id
                && now_prefix[now_prefix.len() - 1].card_id == Some(c));
        }
        assert(event_has_card(now_prefix, event_id, c));
    }
}

/// Backward half of the step: a named card is listed.
proof fn lemma_seen_tracks_backward(
    prefix: Seq<VerificationEvent>,
    now_prefix: Seq<VerificationEvent>,
    entry: VerificationEvent,
    old_seen: Seq<u64>,
    new_seen: Seq<u64>,
    event_id: u64,
    c: u64,
)
    requires
        now_prefix == prefix.push(entry),
        forall|c2: u64|
            #![trigger old_seen.contains(c2)]
            old_seen.contains(c2) <==> event_has_card(prefix, event_id, c2),
        ({
            if entry.event_id == event_id {
                match entry.card_id {
                    Some(cid) => if old_seen.contains(cid) {
                        new_seen == old_seen
                    } else {
                        new_seen == old_seen.push(cid)
                    },
                    None => new_seen == old_seen,
                }
            } else {
                new_seen == old_seen
            }
        }),
    ensures
        event_has_card(now_prefix, event_id, c) ==> new_seen.contains(c),
{
    if event_has_card(now_prefix, event_id, c) {
        let j = choose|j: int|
            0 <= j < now_prefix.len() && (#[trigger] now_prefix[j]).event_id == event_id
                && now_prefix[j].card_id == Some(c);
        if j < now_prefix.len() - 1 {
            assert(prefix[j] == now_prefix[j]);
            assert(event_has_card(prefix, event_id, c));
            assert(old_seen.contains(c));
        } else {
            assert(entry.event_id == event_id && entry.card_id == Some(c));
        }
        if old_seen.contains(c) {
            let k = choose|k: int| 0 <= k < old_seen.len() && old_seen[k] == c;
            assert(new_seen[k] == c);
        } else {
            assert(new_seen == old_seen.push(c));
            assert(new_seen[new_seen.len() - 1] == c);
        }
        assert(new_seen.contains(c));
    }
}

/// Whether an entry belongs to the event and carries the result, when one is
/// asked for.
pub open spec fn entry_matches(
    e: VerificationEvent,
    event_id: u64,
    result: Option<Seq<char>>,
) -> bool {
    e.event_id == event_id && (match result {
        Some(t) => e.verification_result@ == t,
        None => true,
    })
}

/// How many entries of a sequence belong to the event and carry the result.
pub open spec fn count_matching(
    s: Seq<VerificationEvent>,
    event_id: u64,
    result: Option<Seq<char>>,
) -> int
    decreases s.len(),
{
    if s.len() == 0 {
        0
    } else {
        count_matching(s.drop_last(), event_id, result) + if entry_matches(
            s.last(),
            event_id,
            result,
        ) {
            1int
        } else {
            0int
        }
    }
}

/// Per-event scan statistics, as the dashboard shows them.
#[derive(Debug, PartialEq, Eq, Structural)]
pub struct EventStats {
    pub total_scans: i64,
    pub successful_scans: i64,
    pub failed_scans: i64,
    pub unique_cards: i64,
}

/// The success-rate text: the rate in percent, to one decimal place, with
/// the half-step rounded up.
pub open spec fn rate_label(successful: int, total: int) -> Seq<char>
    recommends
        total > 0,
        successful >= 0,
{
    let tenths = (successful * 1000 + total / 2) / total;
    strutil::dec_digits((tenths / 10) as nat) + seq!['.'] + seq![
        strutil::digit_char(tenths % 10),
    ]
}

impl EventStats {
    /// The success rate as text with one decimal place, or nothing while no
    /// scan has happened. A success count never exceeds the scan count.
    pub fn success_rate_label(&self) -> (r: Option<String>)
        requires
            0 <= self.successful_scans <= self.total_scans,
        ensures
            self.total_scans > 0 ==> (r matches Some(s) && s@ == rate_label(
                self.successful_scans as int,
                self.total_scans as int,
            )),
            self.total_scans <= 0 ==> r is None,
    {
        if self.total_scans > 0 {
            let s128: u128 = self.successful_scans as u128;
            let t128: u128 = self.total_scans as u128;
            proof {
                vstd::arithmetic::mul::lemma_mul_inequality(s128 as int, t128 as int, 1000);
                assert(s128 * 1000 + t128 / 2 <= t128 * 1000 + t128 / 2);
                assert(t128 * 1000 + t128 / 2 <= 1001 * t128) by (nonlinear_arith)
                    requires
                        t128 >= 1,
                ;
                vstd::arithmetic::div_mod::lemma_div_is_ordered(
                    (s128 * 1000 + t128 / 2) as int,
                    (1001 * t128) as int,
                    t128 as int,
                );
                vstd::arithmetic::div_mod::lemma_div_multiples_vanish(1001, t128 as int);
                assert((s128 * 1000 + t128 / 2) as int / (t128 as int) <= 1001);
            }
            let tenths_wide: u128 = (s128 * 1000 + t128 / 2) / t128;
            let whole: u64 = (tenths_wide / 10) as u64;
            let frac: u64 = (tenths_wide % 10) as u64;
            let mut label = strutil::u64_to_string(whole);
            strutil::push_char(&mut label, '.');
            let frac_digit = strutil::u64_to_string(frac);
            label.append(frac_digit.as_str());
            proof {
                assert(frac < 10);
                assert(strutil::dec_digits(frac as nat) =~= seq![
                    strutil::digit_char(frac as int),
                ]);
                assert(label@ =~= rate_label(self.successful_scans as int, self.total_scans as int));
            }
            Some(label)
        } else {
            None
        }
    }
}

/// Paging parameters as a listing request carries them.
#[derive(Debug, PartialEq, Eq, Structural, Clone, Copy)]
pub struct PaginationParams {
    pub page: Option<i64>,
    pub per_page: Option<i64>,
}

/// Resolves paging: the first page of fifty when nothing is asked, and the
/// offset the page implies.
pub fn resolve_pagination(params: &PaginationParams) -> (r: (i64, i64, i64))
    requires
        params.page matches Some(p) ==> 1 <= p <= 0x10000000,
        params.per_page matches Some(n) ==> 0 <= n <= 0x10000000,
    ensures
        r.0 == (match params.page {
            Some(p) => p as int,
            None => 1int,
        }),
        r.1 == (match params.per_page {
            Some(n) => n as int,
            None => 50int,
        }),
        r.2 == (r.0 - 1) * r.1,
{
    let page: i64 = match params.page {
        Some(p) => p,
        None => 1,
    };
    let per_page: i64 = match params.per_page {
        Some(n) => n,
        None => 50,
    };
    proof {
        assert(0 <= (page - 1) * per_page <= 0x10000000 * 0x10000000) by (nonlinear_arith)
            requires
                0 <= page - 1 <= 0x10000000,
                0 <= per_page <= 0x10000000,
        ;
    }
    let offset: i64 = (page - 1) * per_page;
    (page, per_page, offset)
}

} // verus!
