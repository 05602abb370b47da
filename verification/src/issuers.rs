//! Card issuers: the static configuration describing a channel, its
//! verification target and proof method, and its wallet credential type.
use vstd::prelude::*;

use crate::cards::{dup_opt_string, dup_string};
use vstd::string::StringExecFns;

verus! {

/// How membership is proven for an issuer: access to a members-only video,
/// or a qualifying comment. A closed sum, never a free-text string, because
/// every consumer must treat the two methods differently.
#[derive(Debug, Clone, Copy, PartialEq, Eq, Structural)]
pub enum ProofMethod {
    Video,
    Comment,
}

/// An issuer row. Read-only from the core's perspective.
#[derive(Debug)]
pub struct CardIssuer {
    pub id: u64,
    pub platform: String,
    pub youtube_channel_id: String,
    pub channel_handle: Option<String>,
    pub channel_name: String,
    pub verification_video_id: String,
    pub default_membership_label: String,
    pub vc_uid: Option<String>,
    pub members_only_video_id: Option<String>,
    pub verification_method: ProofMethod,
    pub is_active: bool,
    pub created_at: i64,
    pub updated_at: i64,
}

/// What a new issuer is made from.
#[derive(Debug)]
pub struct CreateIssuerData {
    pub youtube_channel_id: String,
    pub channel_handle: Option<String>,
    pub channel_name: String,
    pub verification_video_id: String,
    pub default_membership_label: String,
    pub vc_uid: Option<String>,
}

impl CardIssuer {
    /// A field-for-field copy of the issuer.
    pub fn duplicate(&self) -> (r: CardIssuer)
        ensures
            r == *self,
    {
        CardIssuer {
            id: self.id,
            platform: dup_string(&self.platform),
            youtube_channel_id: dup_string(&self.youtube_channel_id),
            channel_handle: dup_opt_string(&self.channel_handle),
            channel_name: dup_string(&self.channel_name),
            verification_video_id: dup_string(&self.verification_video_id),
            default_membership_label: dup_string(&self.default_membership_label),
            vc_uid: dup_opt_string(&self.vc_uid),
            members_only_video_id: dup_opt_string(&self.members_only_video_id),
            verification_method: self.verification_method,
            is_active: self.is_active,
            created_at: self.created_at,
            updated_at: self.updated_at,
        }
    }

    /// The video whose access proves membership: the configured members-only
    /// video, or the verification video when none is set.
    pub fn membership_video_id(&self) -> (r: String)
        ensures
            r@ == membership_video_of(self),
    {
        match &self.members_only_video_id {
            Some(v) => dup_string(v),
            None => dup_string(&self.verification_video_id),
        }
    }
}

/// The video whose access proves membership for an issuer.
pub open spec fn membership_video_of(issuer: &CardIssuer) -> Seq<char> {
    match issuer.members_only_video_id {
        Some(v) => v@,
        None => issuer.verification_video_id@,
    }
}

/// The active issuers of a sequence, in order.
pub open spec fn active_issuers_of(s: Seq<CardIssuer>) -> Seq<CardIssuer>
    decreases s.len(),
{
    if s.len() == 0 {
        Seq::empty()
    } else {
        active_issuers_of(s.drop_last()) + (if s.last().is_active {
            seq![s.last()]
        } else {
            Seq::<CardIssuer>::empty()
        })
    }
}

/// The issuer store.
pub struct IssuerStore {
    pub issuers: Vec<CardIssuer>,
    pub next_id: u64,
}

/// Well-formedness: distinct identifiers below the next free one.
pub open spec fn issuer_store_wf(st: &IssuerStore) -> bool {
    &&& forall|i: int, j: int|
        0 <= i < j < st.issuers@.len() ==> (#[trigger] st.issuers@[i].id) != (
        #[trigger] st.issuers@[j].id)
    &&& forall|i: int| 0 <= i < st.issuers@.len() ==> (#[trigger] st.issuers@[i]).id < st.next_id
}

impl IssuerStore {
    /// An empty store.
    pub fn new() -> (r: IssuerStore)
        ensures
            issuer_store_wf(&r),
            r.issuers@.len() == 0,
    {
        IssuerStore { issuers: Vec::new(), next_id: 1 }
    }

    /// Creates a new issuer: active, proving membership by video access until
    /// configured otherwise.
    pub fn create(&mut self, data: CreateIssuerData, now: i64) -> (r: CardIssuer)
        requires
            issuer_store_wf(old(self)),
            old(self).next_id < u64::MAX,
        ensures
            issuer_store_wf(final(self)),
            final(self).issuers@.len() == old(self).issuers@.len() + 1,
            forall|i: int|
                0 <= i < old(self).issuers@.len() ==> final(self).issuers@[i] == #[trigger] old(
                    self,
                ).issuers@[i],
            final(self).issuers@.last() == r,
            r.id == old(self).next_id,
            r.youtube_channel_id == data.youtube_channel_id,
            r.channel_handle == data.channel_handle,
            r.channel_name == data.channel_name,
            r.verification_video_id == data.verification_video_id,
            r.default_membership_label == data.default_membership_label,
            r.vc_uid == data.vc_uid,
            r.members_only_video_id is None,
            r.verification_method is Video,
            r.is_active,
    {
        let issuer = CardIssuer {
            id: self.next_id,
            platform: String::from_str("youtube"),
            youtube_channel_id: data.youtube_channel_id,
            channel_handle: data.channel_handle,
            channel_name: data.channel_name,
            verification_video_id: data.verification_video_id,
            default_membership_label: data.default_membership_label,
            vc_uid: data.vc_uid,
            members_only_video_id: None,
            verification_method: ProofMethod::Video,
            is_active: true,
            created_at: now,
            updated_at: now,
        };
        let result = issuer.duplicate();
        self.issuers.push(issuer);
        self.next_id = self.next_id + 1;
        proof {
            assert forall|a: int, b: int|
                0 <= a < b < self.issuers@.len() implies (#[trigger] self.issuers@[a].id) != (
            #[trigger] self.issuers@[b].id) by {
                if b == self.issuers@.len() - 1 {
                    assert(old(self).issuers@[a].id < old(self).next_id);
                }
            }
        }
        result
    }

    /// The issuer with the identifier, if any.
    pub fn find_by_id(&self, id: u64) -> (r: Option<CardIssuer>)
        ensures
            match r {
                Some(c) => c.id == id && exists|i: int|
                    0 <= i < self.issuers@.len() && #[trigger] self.issuers@[i] == c,
                None => forall|i: int|
                    0 <= i < self.issuers@.len() ==> (#[trigger] self.issuers@[i]).id != id,
            },
    {
        let mut i: usize = 0;
        while i < self.issuers.len()
            invariant
                i <= self.issuers@.len(),
                forall|j: int| 0 <= j < i ==> (#[trigger] self.issuers@[j]).id != id,
            decreases self.issuers@.len() - i,
        {
            if self.issuers[i].id == id {
                let c = self.issuers[i].duplicate();
                proof {
                    assert(self.issuers@[i as int] == c);
                }
                return Some(c);
            }
            i = i + 1;
        }
        None
    }

    /// The active issuer for an upstream channel identifier, if any.
    pub fn find_by_youtube_channel_id(&self, channel_id: &str) -> (r: Option<CardIssuer>)
        ensures
            match r {
                Some(c) => c.youtube_channel_id@ == channel_id@ && c.is_active && exists|i: int|
                    0 <= i < self.issuers@.len() && #[trigger] self.issuers@[i] == c,
                None => forall|i: int|
                    0 <= i < self.issuers@.len() ==> !((#[trigger] self.issuers@[i]).youtube_channel_id@
                         == channel_id@ && self.issuers@[i].is_active),
            },
    {
        let mut i: usize = 0;
        while i < self.issuers.len()
            invariant
                i <= self.issuers@.len(),
                forall|j: int|
                    0 <= j < i ==> !((#[trigger] self.issuers@[j]).youtube_channel_id@ == channel_id@
                        && self.issuers@[j].is_active),
            decreases self.issuers@.len() - i,
        {
            if self.issuers[i].is_active && crate::strutil::chars_eq(
                self.issuers[i].youtube_channel_id.as_str(),
                channel_id,
            ) {
                let c = self.issuers[i].duplicate();
                proof {
                    assert(self.issuers@[i as int] == c);
                }
                return Some(c);
            }
            i = i + 1;
        }
        None
    }

    /// Turns an issuer on or off. A missing identifier changes nothing.
    pub fn set_active_status(&mut self, id: u64, is_active: bool, now: i64)
        requires
            issuer_store_wf(old(self)),
        ensures
            issuer_store_wf(final(self)),
            final(self).issuers@.len() == old(self).issuers@.len(),
            final(self).next_id == old(self).next_id,
            forall|i: int|
                0 <= i < old(self).issuers@.len() ==> final(self).issuers@[i] == (if (
                #[trigger] old(self).issuers@[i]).id == id {
                    CardIssuer { is_active, updated_at: now, ..old(self).issuers@[i] }
                } else {
                    old(self).issuers@[i]
                }),
    {
        let n = self.issuers.len();
        let mut i: usize = 0;
        while i < n
            invariant
                i <= n,
                n == self.issuers@.len(),
                self.issuers@.len() == old(self).issuers@.len(),
                self.next_id == old(self).next_id,
                forall|j: int|
                    0 <= j < i ==> self.issuers@[j] == (if (#[trigger] old(
                        self,
                    ).issuers@[j]).id == id {
                        CardIssuer { is_active, updated_at: now, ..old(self).issuers@[j] }
                    } else {
                        old(self).issuers@[j]
                    }),
                forall|j: int| i <= j < n ==> self.issuers@[j] == #[trigger] old(self).issuers@[j],
            decreases n - i,
        {
            if self.issuers[i].id == id {
                self.issuers[i].is_active = is_active;
                self.issuers[i].updated_at = now;
            }
            i = i + 1;
        }
        proof {
            assert forall|a: int, b: int|
                0 <= a < b < self.issuers@.len() implies (#[trigger] self.issuers@[a].id) != (
            #[trigger] self.issuers@[b].id) by {
                assert(self.issuers@[a].id == old(self).issuers@[a].id);
                assert(self.issuers@[b].id == old(self).issuers@[b].id);
            }
            assert forall|a: int|
                0 <= a < self.issuers@.len() implies (#[trigger] self.issuers@[a]).id
                < self.next_id by {
                assert(self.issuers@[a].id == old(self).issuers@[a].id);
            }
        }
    }

    /// The active issuers, in store order.
    pub fn list_active(&self) -> (r: Vec<CardIssuer>)
        ensures
            r@ == active_issuers_of(self.issuers@),
            forall|k: int|
                0 <= k < r@.len() ==> (#[trigger] r@[k]).is_active && exists|i: int|
                    0 <= i < self.issuers@.len() && #[trigger] self.issuers@[i] == r@[k],
    {
        let mut out: Vec<CardIssuer> = Vec::new();
        let mut i: usize = 0;
        while i < self.issuers.len()
            invariant
                i <= self.issuers@.len(),
                out@ == active_issuers_of(self.issuers@.subrange(0, i as int)),
                forall|k: int|
                    0 <= k < out@.len() ==> (#[trigger] out@[k]).is_active && exists|j: int|
                        0 <= j < self.issuers@.len() && #[trigger] self.issuers@[j] == out@[k],
            decreases self.issuers@.len() - i,
        {
            proof {
                assert(self.issuers@.subrange(0, i as int + 1).drop_last()
                    =~= self.issuers@.subrange(0, i as int));
                assert(self.issuers@.subrange(0, i as int + 1).last() == self.issuers@[i as int]);
            }
            if self.issuers[i].is_active {
                let c = self.issuers[i].duplicate();
                proof {
                    assert(self.issuers@[i as int] == c);
                }
                out.push(c);
            }
            i = i + 1;
            proof {
                assert(out@ =~= active_issuers_of(self.issuers@.subrange(0, i as int)));
            }
        }
        proof {
            assert(self.issuers@.subrange(0, self.issuers@.len() as int) =~= self.issuers@);
        }
        out
    }
}

} // verus!
