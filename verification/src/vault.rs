//! The token vault: owns OAuth access/refresh token material per member,
//! detects expiry, and decides when a refresh must run. The network exchange
//! itself happens outside; the vault dictates what to do and persists the
//! outcome before any caller may use the token.
use vstd::prelude::*;

use crate::cards::dup_string;

verus! {

/// An OAuth session row. Token bytes are opaque secret material; the caller
/// must protect them in transit.
#[derive(Debug)]
pub struct OAuthSession {
    pub id: u64,
    pub member_id: u64,
    pub access_token: Vec<u8>,
    pub refresh_token: Option<Vec<u8>>,
    pub token_scope: String,
    pub token_expires_at: i64,
    pub created_at: i64,
    pub last_used_at: i64,
}

/// What a new session is made from.
#[derive(Debug)]
pub struct CreateSessionData {
    pub member_id: u64,
    pub access_token: Vec<u8>,
    pub refresh_token: Option<Vec<u8>>,
    pub token_scope: String,
    pub token_expires_at: i64,
}

/// Tokens as the upstream OAuth endpoint hands them back.
#[derive(Debug)]
pub struct TokenData {
    pub access_token: String,
    pub refresh_token: Option<String>,
    pub expires_at: i64,
    pub scopes: Vec<String>,
}

#[derive(Debug, Clone, PartialEq, Eq)]
pub enum YouTubeOAuthError {
    UrlConstruction(String),
    TokenExchange(String),
    TokenRefresh(String),
    InvalidRedirectUri(String),
}

/// Copies a byte string.
pub fn dup_bytes(v: &Vec<u8>) -> (r: Vec<u8>)
    ensures
        r@ == v@,
{
    let mut out: Vec<u8> = Vec::new();
    let mut i: usize = 0;
    while i < v.len()
        invariant
            i <= v@.len(),
            out@ == v@.subrange(0, i as int),
        decreases v@.len() - i,
    {
        out.push(v[i]);
        i = i + 1;
        proof {
            assert(out@ =~= v@.subrange(0, i as int));
        }
    }
    proof {
        assert(out@ =~= v@);
    }
    out
}

/// Copies an optional byte string.
pub fn dup_opt_bytes(v: &Option<Vec<u8>>) -> (r: Option<Vec<u8>>)
    ensures
        match r {
            Some(x) => v matches Some(y) && x@ == y@,
            None => v is None,
        },
{
    match v {
        Some(x) => Some(dup_bytes(x)),
        None => None,
    }
}

impl OAuthSession {
    /// Whether the session's access token has reached its expiry.
    pub fn is_expired(&self, now: i64) -> (r: bool)
        ensures
            r == session_expired(self, now),
    {
        self.token_expires_at <= now
    }

    /// A field-for-field copy of the session. Byte fields are copied by
    /// value, so only views are promised equal.
    pub fn duplicate(&self) -> (r: OAuthSession)
        ensures
            r.id == self.id,
            r.member_id == self.member_id,
            r.access_token@ == self.access_token@,
            match r.refresh_token {
                Some(x) => self.refresh_token matches Some(y) && x@ == y@,
                None => self.refresh_token is None,
            },
            r.token_scope == self.token_scope,
            r.token_expires_at == self.token_expires_at,
            r.created_at == self.created_at,
            r.last_used_at == self.last_used_at,
    {
        OAuthSession {
            id: self.id,
            member_id: self.member_id,
            access_token: dup_bytes(&self.access_token),
            refresh_token: dup_opt_bytes(&self.refresh_token),
            token_scope: dup_string(&self.token_scope),
            token_expires_at: self.token_expires_at,
            created_at: self.created_at,
            last_used_at: self.last_used_at,
        }
    }
}

/// Whether a session's access token has reached its expiry: refresh runs
/// exactly from that moment on.
pub open spec fn session_expired(s: &OAuthSession, now: i64) -> bool {
    s.token_expires_at <= now
}

/// The session store.
pub struct SessionStore {
    pub sessions: Vec<OAuthSession>,
    pub next_id: u64,
}

/// Well-formedness: distinct identifiers below the next free one.
pub open spec fn session_store_wf(st: &SessionStore) -> bool {
    &&& forall|i: int, j: int|
        0 <= i < j < st.sessions@.len() ==> (#[trigger] st.sessions@[i].id) != (
        #[trigger] st.sessions@[j].id)
    &&& forall|i: int| 0 <= i < st.sessions@.len() ==> (#[trigger] st.sessions@[i]).id < st.next_id
}

/// The most recent session of a member: highest creation time, and among
/// equals the one stored last.
pub open spec fn latest_session_for(s: Seq<OAuthSession>, member_id: u64) -> Option<int>
    decreases s.len(),
{
    if s.len() == 0 {
        None
    } else {
        let rest = latest_session_for(s.drop_last(), member_id);
        if s.last().member_id != member_id {
            rest
        } else {
            match rest {
                None => Some(s.len() - 1),
                Some(r) => if s.last().created_at >= s[r].created_at {
                    Some(s.len() - 1)
                } else {
                    Some(r)
                },
            }
        }
    }
}

/// The index that `latest_session_for` returns always lies in the sequence
/// and names a session of the member.
pub proof fn lemma_latest_session_in_range(s: Seq<OAuthSession>, member_id: u64)
    ensures
        latest_session_for(s, member_id) matches Some(i) ==> 0 <= i < s.len() && s[i].member_id
            == member_id,
    decreases s.len(),
{
    if s.len() > 0 {
        lemma_latest_session_in_range(s.drop_last(), member_id);
        match latest_session_for(s, member_id) {
            Some(i) => {
                if i < s.len() - 1 {
                    assert(s.drop_last()[i] == s[i]);
                }
            },
            None => {},
        }
    }
}

/// A session with fresh token material.
pub open spec fn tokens_updated(
    s: OAuthSession,
    access_token: Vec<u8>,
    refresh_token: Option<Vec<u8>>,
    expires_at: i64,
    now: i64,
) -> OAuthSession {
    OAuthSession {
        access_token,
        refresh_token,
        token_expires_at: expires_at,
        last_used_at: now,
        ..s
    }
}

impl SessionStore {
    /// An empty store.
    pub fn new() -> (r: SessionStore)
        ensures
            session_store_wf(&r),
            r.sessions@.len() == 0,
    {
        SessionStore { sessions: Vec::new(), next_id: 1 }
    }

    /// Stores a new session.
    pub fn create(&mut self, data: CreateSessionData, now: i64) -> (r: u64)
        requires
            session_store_wf(old(self)),
            old(self).next_id < u64::MAX,
        ensures
            session_store_wf(final(self)),
            final(self).sessions@.len() == old(self).sessions@.len() + 1,
            forall|i: int|
                0 <= i < old(self).sessions@.len() ==> final(self).sessions@[i] == #[trigger] old(
                    self,
                ).sessions@[i],
            final(self).sessions@.last().id == old(self).next_id,
            final(self).sessions@.last().member_id == data.member_id,
            final(self).sessions@.last().access_token == data.access_token,
            final(self).sessions@.last().refresh_token == data.refresh_token,
            final(self).sessions@.last().token_scope == data.token_scope,
            final(self).sessions@.last().token_expires_at == data.token_expires_at,
            final(self).sessions@.last().created_at == now,
            r == old(self).next_id,
    {
        let id = self.next_id;
        let session = OAuthSession {
            id,
            member_id: data.member_id,
            access_token: data.access_token,
            refresh_token: data.refresh_token,
            token_scope: data.token_scope,
            token_expires_at: data.token_expires_at,
            created_at: now,
            last_used_at: now,
        };
        self.sessions.push(session);
        self.next_id = self.next_id + 1;
        proof {
            assert forall|a: int, b: int|
                0 <= a < b < self.sessions@.len() implies (#[trigger] self.sessions@[a].id) != (
            #[trigger] self.sessions@[b].id) by {
                if b == self.sessions@.len() - 1 {
                    assert(old(self).sessions@[a].id < old(self).next_id);
                }
            }
        }
        id
    }

    /// The most recent session of the member, if any.
    pub fn find_by_member_id(&self, member_id: u64) -> (r: Option<OAuthSession>)
        ensures
            match r {
                Some(s) => latest_session_for(self.sessions@, member_id) matches Some(i)
                    && 0 <= i < self.sessions@.len() && s.id == self.sessions@[i].id
                    && s.member_id == member_id && s.access_token@
                    == self.sessions@[i].access_token@ && (match s.refresh_token {
                    Some(x) => self.sessions@[i].refresh_token matches Some(y) && x@ == y@,
                    None => self.sessions@[i].refresh_token is None,
                }) && s.token_expires_at == self.sessions@[i].token_expires_at,
                None => latest_session_for(self.sessions@, member_id) is None,
            },
    {
        let mut best: Option<usize> = None;
        let mut i: usize = 0;
        while i < self.sessions.len()
            invariant
                i <= self.sessions@.len(),
                match best {
                    Some(b) => b < i && latest_session_for(
                        self.sessions@.subrange(0, i as int),
                        member_id,
                    ) == Some(b as int),
                    None => latest_session_for(
                        self.sessions@.subrange(0, i as int),
                        member_id,
                    ) is None,
                },
            decreases self.sessions@.len() - i,
        {
            proof {
                assert(self.sessions@.subrange(0, i as int + 1).drop_last()
                    =~= self.sessions@.subrange(0, i as int));
                assert(self.sessions@.subrange(0, i as int + 1).last() == self.sessions@[i as int]);
                assert forall|b: int|
                    0 <= b < i implies self.sessions@.subrange(0, i as int + 1)[b]
                    == self.sessions@[b] by {}
            }
            if self.sessions[i].member_id == member_id {
                let replace = match best {
                    None => true,
                    Some(b) => self.sessions[i].created_at >= self.sessions[b].created_at,
                };
                if replace {
                    best = Some(i);
                }
            }
            i = i + 1;
        }
        proof {
            assert(self.sessions@.subrange(0, self.sessions@.len() as int) =~= self.sessions@);
            lemma_latest_session_in_range(self.sessions@, member_id);
        }
        match best {
            Some(b) => Some(self.sessions[b].duplicate()),
            None => None,
        }
    }

    /// Replaces a session's token material after a refresh, marking it just
    /// used. A missing identifier changes nothing.
    pub fn update_tokens(
        &mut self,
        id: u64,
        access_token: Vec<u8>,
        refresh_token: Option<Vec<u8>>,
        expires_at: i64,
        now: i64,
    )
        requires
            session_store_wf(old(self)),
        ensures
            session_store_wf(final(self)),
            final(self).sessions@.len() == old(self).sessions@.len(),
            final(self).next_id == old(self).next_id,
            forall|i: int|
                0 <= i < old(self).sessions@.len() ==> final(self).sessions@[i] == (if (
                #[trigger] old(self).sessions@[i]).id == id {
                    tokens_updated(
                        old(self).sessions@[i],
                        access_token,
                        refresh_token,
                        expires_at,
                        now,
                    )
                } else {
                    old(self).sessions@[i]
                }),
    {
        let n = self.sessions.len();
        let mut i: usize = 0;
        let mut payload: Option<(Vec<u8>, Option<Vec<u8>>)> = Some((access_token, refresh_token));
        while i < n
            invariant
                i <= n,
                n == self.sessions@.len(),
                self.sessions@.len() == old(self).sessions@.len(),
                self.next_id == old(self).next_id,
                payload is None <==> exists|j: int|
                    0 <= j < i && (#[trigger] old(self).sessions@[j]).id == id,
                payload matches Some(p) ==> p.0 == access_token && p.1 == refresh_token,
                forall|j: int|
                    0 <= j < i ==> self.sessions@[j] == (if (#[trigger] old(
                        self,
                    ).sessions@[j]).id == id {
                        tokens_updated(
                            old(self).sessions@[j],
                            access_token,
                            refresh_token,
                            expires_at,
                            now,
                        )
                    } else {
                        old(self).sessions@[j]
                    }),
                forall|j: int| i <= j < n ==> self.sessions@[j] == #[trigger] old(
                    self,
                ).sessions@[j],
            decreases n - i,
        {
            if self.sessions[i].id == id {
                proof {
                    assert(self.sessions@[i as int] == old(self).sessions@[i as int]);
                    assert forall|j: int|
                        0 <= j < i implies (#[trigger] old(self).sessions@[j]).id != id by {
                        assert(old(self).sessions@[j].id != old(self).sessions@[i as int].id);
                    }
                }
                match payload {
                    Some(p) => {
                        self.sessions[i].access_token = p.0;
                        self.sessions[i].refresh_token = p.1;
                        self.sessions[i].token_expires_at = expires_at;
                        self.sessions[i].last_used_at = now;
                        payload = None;
                    },
                    None => {
                        proof {
                            let j = choose|j: int|
                                0 <= j < i && (#[trigger] old(self).sessions@[j]).id == id;
                            assert(old(self).sessions@[j].id != old(
                                self,
                            ).sessions@[i as int].id);
                            assert(false);
                        }
                    },
                }
            }
            i = i + 1;
        }
        proof {
            assert forall|a: int, b: int|
                0 <= a < b < self.sessions@.len() implies (#[trigger] self.sessions@[a].id) != (
            #[trigger] self.sessions@[b].id) by {
                assert(self.sessions@[a].id == old(self).sessions@[a].id);
                assert(self.sessions@[b].id == old(self).sessions@[b].id);
            }
            assert forall|a: int|
                0 <= a < self.sessions@.len() implies (#[trigger] self.sessions@[a]).id
                < self.next_id by {
                assert(self.sessions@[a].id == old(self).sessions@[a].id);
            }
        }
    }

    /// Marks a session just used.
    pub fn touch(&mut self, id: u64, now: i64)
        requires
            session_store_wf(old(self)),
        ensures
            session_store_wf(final(self)),
            final(self).sessions@.len() == old(self).sessions@.len(),
            final(self).next_id == old(self).next_id,
            forall|i: int|
                0 <= i < old(self).sessions@.len() ==> final(self).sessions@[i] == (if (
                #[trigger] old(self).sessions@[i]).id == id {
                    OAuthSession { last_used_at: now, ..old(self).sessions@[i] }
                } else {
                    old(self).sessions@[i]
                }),
    {
        let n = self.sessions.len();
        let mut i: usize = 0;
        while i < n
            invariant
                i <= n,
                n == self.sessions@.len(),
                self.sessions@.len() == old(self).sessions@.len(),
                self.next_id == old(self).next_id,
                forall|j: int|
                    0 <= j < i ==> self.sessions@[j] == (if (#[trigger] old(
                        self,
                    ).sessions@[j]).id == id {
                        OAuthSession { last_used_at: now, ..old(self).sessions@[j] }
                    } else {
                        old(self).sessions@[j]
                    }),
                forall|j: int| i <= j < n ==> self.sessions@[j] == #[trigger] old(
                    self,
                ).sessions@[j],
            decreases n - i,
        {
            if self.sessions[i].id == id {
                self.sessions[i].last_used_at = now;
            }
            i = i + 1;
        }
        proof {
            assert forall|a: int, b: int|
                0 <= a < b < self.sessions@.len() implies (#[trigger] self.sessions@[a].id) != (
            #[trigger] self.sessions@[b].id) by {
                assert(self.sessions@[a].id == old(self).sessions@[a].id);
                assert(self.sessions@[b].id == old(self).sessions@[b].id);
            }
            assert forall|a: int|
                0 <= a < self.sessions@.len() implies (#[trigger] self.sessions@[a]).id
                < self.next_id by {
                assert(self.sessions@[a].id == old(self).sessions@[a].id);
            }
        }
    }
}

/// The sessions that survive deleting one identifier, in order.
pub open spec fn without_session(s: Seq<OAuthSession>, id: u64) -> Seq<OAuthSession>
    decreases s.len(),
{
    if s.len() == 0 {
        Seq::empty()
    } else {
        (if s[0].id == id {
            Seq::<OAuthSession>::empty()
        } else {
            seq![s[0]]
        }) + without_session(s.drop_first(), id)
    }
}

/// The deletion filter yields a subsequence: every kept element has a source
/// index, and sources are strictly increasing, so distinct identifiers stay
/// distinct.
proof fn lemma_filtered_keeps_distinct(s: Seq<OAuthSession>, id: u64)
    ensures
        forall|k: int|
            #![trigger without_session(s, id)[k]]
            0 <= k < without_session(s, id).len() ==> exists|j: int|
                0 <= j < s.len() && #[trigger] s[j] == without_session(s, id)[k],
        without_session(s, id).len() <= s.len(),
        (forall|a: int, b: int|
            0 <= a < b < s.len() ==> (#[trigger] s[a].id) != (#[trigger] s[b].id)) ==> (forall|
            a: int,
            b: int,
        |
            0 <= a < b < without_session(s, id).len() ==> (#[trigger] without_session(
                s,
                id,
            )[a].id) != (#[trigger] without_session(s, id)[b].id)),
    decreases s.len(),
{
    if s.len() > 0 {
        lemma_filtered_keeps_distinct(s.drop_first(), id);
        let rest = without_session(s.drop_first(), id);
        let whole = without_session(s, id);
        assert forall|k: int| #![trigger whole[k]] 0 <= k < whole.len() implies exists|j: int|
            0 <= j < s.len() && #[trigger] s[j] == whole[k] by {
            if s[0].id == id {
                let j = choose|j: int|
                    0 <= j < s.drop_first().len() && #[trigger] s.drop_first()[j] == rest[k];
                assert(s[j + 1] == whole[k]);
            } else {
                if k == 0 {
                    assert(s[0] == whole[0]);
                } else {
                    let j = choose|j: int|
                        0 <= j < s.drop_first().len() && #[trigger] s.drop_first()[j] == rest[k
                            - 1];
                    assert(s[j + 1] == whole[k]);
                }
            }
        }
        if forall|a: int, b: int|
            0 <= a < b < s.len() ==> (#[trigger] s[a].id) != (#[trigger] s[b].id) {
            assert forall|a: int, b: int|
                0 <= a < b < s.drop_first().len() implies (#[trigger] s.drop_first()[a].id) != (
            #[trigger] s.drop_first()[b].id) by {
                assert(s[a + 1].id != s[b + 1].id);
            }
            assert forall|a: int, b: int|
                0 <= a < b < whole.len() implies (#[trigger] whole[a].id) != (
            #[trigger] whole[b].id) by {
                if s[0].id == id {
                    assert(whole[a] == rest[a] && whole[b] == rest[b]);
                } else {
                    if a == 0 {
                        let j = choose|j: int|
                            0 <= j < s.drop_first().len() && #[trigger] s.drop_first()[j] == rest[b
                                - 1];
                        assert(whole[b] == rest[b - 1]);
                        assert(s[0].id != s[j + 1].id);
                    } else {
                        assert(whole[a] == rest[a - 1] && whole[b] == rest[b - 1]);
                    }
                }
            }
        }
    }
}

impl SessionStore {
    /// Deletes a session. Returns how many rows went away.
    pub fn delete(&mut self, id: u64) -> (r: u64)
        requires
            session_store_wf(old(self)),
        ensures
            session_store_wf(final(self)),
            final(self).sessions@ == without_session(old(self).sessions@, id),
            final(self).next_id == old(self).next_id,
            r == old(self).sessions@.len() - final(self).sessions@.len(),
    {
        let before = self.sessions.len() as u64;
        let mut kept: Vec<OAuthSession> = Vec::new();
        while self.sessions.len() > 0
            invariant
                without_session(old(self).sessions@, id) == kept@ + without_session(
                    self.sessions@,
                    id,
                ),
                self.next_id == old(self).next_id,
                before == old(self).sessions@.len(),
                kept@.len() + self.sessions@.len() <= before,
            decreases self.sessions@.len(),
        {
            let ghost pre = self.sessions@;
            let s = self.sessions.remove(0);
            proof {
                assert(self.sessions@ =~= pre.drop_first());
            }
            if s.id != id {
                kept.push(s);
                proof {
                    assert(kept@ + without_session(self.sessions@, id) =~= without_session(
                        old(self).sessions@,
                        id,
                    ));
                }
            }
        }
        proof {
            assert(without_session(self.sessions@, id) =~= Seq::<OAuthSession>::empty());
            assert(kept@ =~= without_session(old(self).sessions@, id));
            lemma_filtered_keeps_distinct(old(self).sessions@, id);
            assert forall|k: int| 0 <= k < kept@.len() implies (#[trigger] kept@[k]).id
                < self.next_id by {
                let j = choose|j: int|
                    0 <= j < old(self).sessions@.len() && #[trigger] old(self).sessions@[j]
                        == without_session(old(self).sessions@, id)[k];
            }
        }
        self.sessions = kept;
        before - self.sessions.len() as u64
    }
}

/// What the vault tells a caller to do for a member at a moment.
#[derive(Debug)]
pub enum TokenDirective {
    /// No session exists; the member must authenticate.
    NoSession,
    /// The stored access token is still current: use it.
    UseStored(Vec<u8>),
    /// The token expired and a refresh token exists: exchange it upstream.
    RefreshWith(Vec<u8>),
    /// The token expired and no refresh token exists; the member must
    /// re-authenticate.
    NoRefreshToken,
}

/// Decides how a caller gets a valid access token for a member: the stored
/// token while it is current, a refresh exactly when it has expired and a
/// refresh token exists, and re-authentication otherwise.
pub fn plan_token_use(store: &SessionStore, member_id: u64, now: i64) -> (r: TokenDirective)
    ensures
        match latest_session_for(store.sessions@, member_id) {
            None => r is NoSession,
            Some(i) => {
                let s = store.sessions@[i];
                if !session_expired(&s, now) {
                    r matches TokenDirective::UseStored(t) && t@ == s.access_token@
                } else {
                    match s.refresh_token {
                        Some(rt) => r matches TokenDirective::RefreshWith(t) && t@ == rt@,
                        None => r is NoRefreshToken,
                    }
                }
            },
        },
{
    match store.find_by_member_id(member_id) {
        None => TokenDirective::NoSession,
        Some(session) => {
            if !session.is_expired(now) {
                TokenDirective::UseStored(session.access_token)
            } else {
                match session.refresh_token {
                    Some(rt) => TokenDirective::RefreshWith(rt),
                    None => TokenDirective::NoRefreshToken,
                }
            }
        },
    }
}

/// The expiry instant for a token that lives `expires_in` seconds from now;
/// an upstream answer without a lifetime means one hour.
pub fn token_expiry(now: i64, expires_in: Option<u64>) -> (r: i64)
    requires
        0 <= now <= i64::MAX - 0x1_0000_0000,
    ensures
        r == now + (match expires_in {
            Some(e) => if e <= 0xffff_ffff {
                e as int
            } else {
                0xffff_ffff
            },
            None => 3600,
        }),
{
    let secs: i64 = match expires_in {
        Some(e) => if e <= 0xffff_ffff {
            e as i64
        } else {
            0xffff_ffff
        },
        None => 3600,
    };
    now + secs
}

/// The refresh answer's tokens merged with what was stored: the upstream
/// endpoint may omit the refresh token, in which case the old one is kept.
pub fn merge_refresh_token(fresh: Option<String>, stored: String) -> (r: String)
    ensures
        match fresh {
            Some(f) => r == f,
            None => r == stored,
        },
{
    match fresh {
        Some(f) => f,
        None => stored,
    }
}

} // verus!
