//! Members: created or merged on first successful proof, keyed by the
//! upstream user identifier, refreshed on every later successful proof.
use vstd::prelude::*;

use crate::cards::{dup_opt_string, dup_string};

verus! {

/// A member row.
#[derive(Debug)]
pub struct Member {
    pub id: u64,
    pub youtube_user_id: String,
    pub default_display_name: String,
    pub avatar_url: Option<String>,
    pub locale: Option<String>,
    pub created_at: i64,
    pub updated_at: i64,
}

/// What a new member is made from.
#[derive(Debug)]
pub struct CreateMemberData {
    pub youtube_user_id: String,
    pub default_display_name: String,
    pub avatar_url: Option<String>,
    pub locale: Option<String>,
}

impl Member {
    /// A field-for-field copy of the member.
    pub fn duplicate(&self) -> (r: Member)
        ensures
            r == *self,
    {
        Member {
            id: self.id,
            youtube_user_id: dup_string(&self.youtube_user_id),
            default_display_name: dup_string(&self.default_display_name),
            avatar_url: dup_opt_string(&self.avatar_url),
            locale: dup_opt_string(&self.locale),
            created_at: self.created_at,
            updated_at: self.updated_at,
        }
    }
}

/// A member as a profile refresh leaves it: given fields replace the stored
/// ones, absent fields keep them.
pub open spec fn profile_updated(
    m: Member,
    display_name: Option<String>,
    avatar_url: Option<String>,
    locale: Option<String>,
    now: i64,
) -> Member {
    Member {
        default_display_name: match display_name {
            Some(d) => d,
            None => m.default_display_name,
        },
        avatar_url: match avatar_url {
            Some(a) => Some(a),
            None => m.avatar_url,
        },
        locale: match locale {
            Some(l) => Some(l),
            None => m.locale,
        },
        updated_at: now,
        ..m
    }
}

/// The member store.
pub struct MemberStore {
    pub members: Vec<Member>,
    pub next_id: u64,
}

/// Well-formedness: distinct identifiers below the next free one, and
/// distinct upstream user identifiers (the upsert key).
pub open spec fn member_store_wf(st: &MemberStore) -> bool {
    &&& forall|i: int, j: int|
        0 <= i < j < st.members@.len() ==> (#[trigger] st.members@[i].id) != (
        #[trigger] st.members@[j].id)
    &&& forall|i: int, j: int|
        0 <= i < j < st.members@.len() ==> (#[trigger] st.members@[i].youtube_user_id)@ != (
        #[trigger] st.members@[j].youtube_user_id)@
    &&& forall|i: int| 0 <= i < st.members@.len() ==> (#[trigger] st.members@[i]).id < st.next_id
}

/// Whether some member in the sequence carries the upstream user identifier.
pub open spec fn has_member_key(s: Seq<Member>, key: Seq<char>) -> bool {
    exists|i: int| 0 <= i < s.len() && (#[trigger] s[i]).youtube_user_id@ == key
}

impl MemberStore {
    /// An empty store.
    pub fn new() -> (r: MemberStore)
        ensures
            member_store_wf(&r),
            r.members@.len() == 0,
    {
        MemberStore { members: Vec::new(), next_id: 1 }
    }

    /// The member with the identifier, if any.
    pub fn find_by_id(&self, id: u64) -> (r: Option<Member>)
        ensures
            match r {
                Some(m) => m.id == id && exists|i: int|
                    0 <= i < self.members@.len() && #[trigger] self.members@[i] == m,
                None => forall|i: int|
                    0 <= i < self.members@.len() ==> (#[trigger] self.members@[i]).id != id,
            },
    {
        let mut i: usize = 0;
        while i < self.members.len()
            invariant
                i <= self.members@.len(),
                forall|j: int| 0 <= j < i ==> (#[trigger] self.members@[j]).id != id,
            decreases self.members@.len() - i,
        {
            if self.members[i].id == id {
                let m = self.members[i].duplicate();
                proof {
                    assert(self.members@[i as int] == m);
                }
                return Some(m);
            }
            i = i + 1;
        }
        None
    }

    /// The member with the upstream user identifier, if any.
    pub fn find_by_youtube_user_id(&self, youtube_user_id: &str) -> (r: Option<Member>)
        ensures
            match r {
                Some(m) => m.youtube_user_id@ == youtube_user_id@ && exists|i: int|
                    0 <= i < self.members@.len() && #[trigger] self.members@[i] == m,
                None => !has_member_key(self.members@, youtube_user_id@),
            },
    {
        let mut i: usize = 0;
        while i < self.members.len()
            invariant
                i <= self.members@.len(),
                forall|j: int|
                    0 <= j < i ==> (#[trigger] self.members@[j]).youtube_user_id@
                        != youtube_user_id@,
            decreases self.members@.len() - i,
        {
            if crate::strutil::chars_eq(self.members[i].youtube_user_id.as_str(), youtube_user_id) {
                let m = self.members[i].duplicate();
                proof {
                    assert(self.members@[i as int] == m);
                }
                return Some(m);
            }
            i = i + 1;
        }
        None
    }

    /// Creates a new member row. The upsert key must not be present yet.
    pub fn create(&mut self, data: CreateMemberData, now: i64) -> (r: Member)
        requires
            member_store_wf(old(self)),
            !has_member_key(old(self).members@, data.youtube_user_id@),
            old(self).next_id < u64::MAX,
        ensures
            member_store_wf(final(self)),
            final(self).members@.len() == old(self).members@.len() + 1,
            forall|i: int|
                0 <= i < old(self).members@.len()
                    ==> final(self).members@[i] == #[trigger] old(self).members@[i],
            final(self).members@.last() == r,
            r.id == old(self).next_id,
            r.youtube_user_id == data.youtube_user_id,
            r.default_display_name == data.default_display_name,
            r.avatar_url == data.avatar_url,
            r.locale == data.locale,
            r.created_at == now,
            r.updated_at == now,
    {
        let m = Member {
            id: self.next_id,
            youtube_user_id: data.youtube_user_id,
            default_display_name: data.default_display_name,
            avatar_url: data.avatar_url,
            locale: data.locale,
            created_at: now,
            updated_at: now,
        };
        let result = m.duplicate();
        self.members.push(m);
        self.next_id = self.next_id + 1;
        proof {
            let s = self.members@;
            let olds = old(self).members@;
            assert forall|a: int, b: int| 0 <= a < b < s.len() implies (#[trigger] s[a].id) != (
            #[trigger] s[b].id) by {
                if b == s.len() - 1 {
                    assert(olds[a].id < old(self).next_id);
                }
            }
            assert forall|a: int, b: int|
                0 <= a < b < s.len() implies (#[trigger] s[a].youtube_user_id)@ != (
            #[trigger] s[b].youtube_user_id)@ by {
                if b == s.len() - 1 {
                    assert(!has_member_key(olds, s[b].youtube_user_id@));
                }
            }
        }
        result
    }

    /// Refreshes a member's profile: given fields replace the stored ones,
    /// absent fields keep them. A missing identifier changes nothing.
    pub fn update_profile(
        &mut self,
        id: u64,
        display_name: Option<String>,
        avatar_url: Option<String>,
        locale: Option<String>,
        now: i64,
    )
        requires
            member_store_wf(old(self)),
        ensures
            member_store_wf(final(self)),
            final(self).members@.len() == old(self).members@.len(),
            final(self).next_id == old(self).next_id,
            forall|i: int|
                0 <= i < old(self).members@.len() ==> final(self).members@[i] == (if (
                #[trigger] old(self).members@[i]).id == id {
                    profile_updated(old(self).members@[i], display_name, avatar_url, locale, now)
                } else {
                    old(self).members@[i]
                }),
    {
        let mut i: usize = 0;
        let n = self.members.len();
        while i < n
            invariant
                i <= n,
                n == self.members@.len(),
                self.members@.len() == old(self).members@.len(),
                self.next_id == old(self).next_id,
                forall|j: int|
                    0 <= j < i ==> self.members@[j] == (if old(self).members@[j].id == id {
                        profile_updated(
                            #[trigger] old(self).members@[j],
                            display_name,
                            avatar_url,
                            locale,
                            now,
                        )
                    } else {
                        old(self).members@[j]
                    }),
                forall|j: int| i <= j < n ==> self.members@[j] == #[trigger] old(self).members@[j],
            decreases n - i,
        {
            if self.members[i].id == id {
                match &display_name {
                    Some(d) => {
                        self.members[i].default_display_name = dup_string(d);
                    },
                    None => {},
                }
                match &avatar_url {
                    Some(a) => {
                        self.members[i].avatar_url = Some(dup_string(a));
                    },
                    None => {},
                }
                match &locale {
                    Some(l) => {
                        self.members[i].locale = Some(dup_string(l));
                    },
                    None => {},
                }
                self.members[i].updated_at = now;
                proof {
                    assert(self.members@[i as int] == profile_updated(
                        old(self).members@[i as int],
                        display_name,
                        avatar_url,
                        locale,
                        now,
                    ));
                }
            }
            i = i + 1;
        }
        proof {
            assert forall|a: int, b: int|
                0 <= a < b < self.members@.len() implies (#[trigger] self.members@[a].id) != (
            #[trigger] self.members@[b].id) by {
                assert(self.members@[a].id == old(self).members@[a].id);
                assert(self.members@[b].id == old(self).members@[b].id);
            }
            assert forall|a: int, b: int|
                0 <= a < b < self.members@.len() implies (
            #[trigger] self.members@[a].youtube_user_id)@ != (
            #[trigger] self.members@[b].youtube_user_id)@ by {
                assert(self.members@[a].youtube_user_id == old(self).members@[a].youtube_user_id);
                assert(self.members@[b].youtube_user_id == old(self).members@[b].youtube_user_id);
            }
            assert forall|a: int|
                0 <= a < self.members@.len() implies (#[trigger] self.members@[a]).id
                < self.next_id by {
                assert(self.members@[a].id == old(self).members@[a].id);
            }
        }
    }

    /// Finds the member carrying the upsert key and refreshes their profile
    /// from the latest proof evidence, or creates them; returns the stored
    /// row.
    pub fn find_or_create(&mut self, data: CreateMemberData, now: i64) -> (r: Member)
        requires
            member_store_wf(old(self)),
            old(self).next_id < u64::MAX,
        ensures
            member_store_wf(final(self)),
            r.youtube_user_id@ == data.youtube_user_id@,
            r.default_display_name@ == data.default_display_name@,
            has_member_key(final(self).members@, data.youtube_user_id@),
            exists|i: int|
                0 <= i < final(self).members@.len() && #[trigger] final(self).members@[i] == r,
            !has_member_key(old(self).members@, data.youtube_user_id@) ==> (final(self).members@.len() == old(self).members@.len() + 1 && (forall|i: int|
                0 <= i < old(self).members@.len() ==> final(self).members@[i] == #[trigger] old(self).members@[i]) && final(self).members@.last() == r && r.id == old(self).next_id
                && r.avatar_url == data.avatar_url && r.locale == data.locale && r.created_at
                == now && r.updated_at == now),
            has_member_key(old(self).members@, data.youtube_user_id@) ==> (final(self).members@.len() == old(self).members@.len() && final(self).next_id == old(self).next_id && (forall|i: int|
                0 <= i < old(self).members@.len() ==> final(self).members@[i] == (if (
                #[trigger] old(self).members@[i]).youtube_user_id@ == data.youtube_user_id@ {
                    profile_updated(
                        old(self).members@[i],
                        Some(data.default_display_name),
                        data.avatar_url,
                        data.locale,
                        now,
                    )
                } else {
                    old(self).members@[i]
                })) && (exists|i: int|
                0 <= i < old(self).members@.len() && (#[trigger] old(self).members@[i]).youtube_user_id@ == data.youtube_user_id@ && r == profile_updated(
                    old(self).members@[i],
                    Some(data.default_display_name),
                    data.avatar_url,
                    data.locale,
                    now,
                ) && r.id == old(self).members@[i].id)),
    {
        let existing = self.find_by_youtube_user_id(data.youtube_user_id.as_str());
        match existing {
            Some(m) => {
                self.update_profile(
                    m.id,
                    Some(data.default_display_name),
                    data.avatar_url,
                    data.locale,
                    now,
                );
                let ghost oi = choose|i: int|
                    0 <= i < old(self).members@.len() && #[trigger] old(self).members@[i] == m;
                proof {
                    assert forall|i: int|
                        0 <= i < old(self).members@.len() implies ((#[trigger] old(self).members@[i]).id == m.id <==> old(self).members@[i].youtube_user_id@
                        == data.youtube_user_id@) by {
                        if i != oi {
                            assert(old(self).members@[i].id != old(self).members@[oi].id);
                            assert(old(self).members@[i].youtube_user_id@ != old(self).members@[oi].youtube_user_id@);
                        }
                    }
                }
                let updated = self.find_by_id(m.id);
                match updated {
                    Some(u) => {
                        proof {
                            assert(old(self).members@[oi].id == m.id);
                            assert(self.members@[oi] == profile_updated(
                                m,
                                Some(data.default_display_name),
                                data.avatar_url,
                                data.locale,
                                now,
                            ));
                            let j = choose|j: int|
                                0 <= j < self.members@.len() && #[trigger] self.members@[j] == u;
                            if j != oi {
                                assert(self.members@[j].id != self.members@[oi].id);
                            }
                            assert(u == self.members@[oi]);
                            assert(self.members@[oi].youtube_user_id@ == data.youtube_user_id@);
                        }
                        u
                    },
                    None => {
                        proof {
                            assert(old(self).members@[oi].id == m.id);
                            assert(self.members@[oi].id == m.id);
                            assert(false);
                        }
                        Member {
                            id: 0,
                            youtube_user_id: String::new(),
                            default_display_name: String::new(),
                            avatar_url: None,
                            locale: None,
                            created_at: 0,
                            updated_at: 0,
                        }
                    },
                }
            },
            None => {
                let created = self.create(data, now);
                proof {
                    assert(self.members@.last() == created);
                    assert(self.members@[self.members@.len() - 1].youtube_user_id@
                        == created.youtube_user_id@);
                }
                created
            },
        }
    }
}

} // verus!
