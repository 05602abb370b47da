//! The verifier-side presentation protocol: requesting a presentation QR,
//! polling for its result, the ephemeral verification session with its fixed
//! five-minute life, and the flattening of presented claims.
use vstd::prelude::*;

use crate::cards::dup_string;
use crate::strutil;
use vstd::string::StringExecFns;

verus! {

/// How long a verification session lives, in seconds.
pub const SESSION_TTL_SECONDS: i64 = 300;

#[derive(Debug, Clone, PartialEq, Eq)]
pub enum OidvpError {
    ApiError(String),
    MissingConfig,
    NotReady,
    Expired,
    VerificationFailed(String),
}

/// A request to mint a presentation QR.
#[derive(Debug)]
pub struct QrCodeRequest {
    pub ref_code: String,
    pub transaction_id: String,
}

/// What the verifier answers with a freshly minted presentation QR.
#[derive(Debug)]
pub struct QrCodeResponse {
    pub transaction_id: String,
    pub qrcode_image: String,
    pub auth_uri: String,
}

/// A request to read a presentation's result.
#[derive(Debug)]
pub struct ResultRequest {
    pub transaction_id: String,
}

/// One claim of a presented credential.
#[derive(Debug)]
pub struct ClaimData {
    pub ename: String,
    pub cname: String,
    pub value: String,
}

/// One presented credential with its claims.
#[derive(Debug)]
pub struct CredentialData {
    pub credential_type: String,
    pub claims: Vec<ClaimData>,
}

/// The verifier's answer to a result poll.
#[derive(Debug)]
pub struct ResultResponse {
    pub verify_result: bool,
    pub result_description: String,
    pub transaction_id: String,
    pub data: Option<Vec<CredentialData>>,
}

/// Whether a failed poll answer means only "not ready yet": a missing
/// transaction, or a body naming the pending state.
pub open spec fn oidvp_not_ready(http_status: u16, body: Seq<char>) -> bool {
    http_status == 404 || contains_seq(body, "not ready"@) || contains_seq(body, "61010"@)
        || contains_seq(body, "verify result not found"@)
}

/// Whether `pat` occurs in `s`.
pub open spec fn contains_seq(s: Seq<char>, pat: Seq<char>) -> bool {
    exists|i: int| 0 <= i && i + pat.len() <= s.len() && #[trigger] s.subrange(i, i + pat.len())
        == pat
}

/// Whether `pat` occurs in `s`, decided by scanning.
pub fn contains_str(s: &str, pat: &str) -> (r: bool)
    ensures
        r == contains_seq(s@, pat@),
{
    let sc = strutil::chars_of(s);
    let pc = strutil::chars_of(pat);
    let n = sc.len();
    let m = pc.len();
    if m > n {
        return false;
    }
    let mut i: usize = 0;
    while i <= n - m
        invariant
            m <= n,
            n == sc@.len(),
            m == pc@.len(),
            sc@ == s@,
            pc@ == pat@,
            i <= n - m + 1,
            forall|j: int| 0 <= j < i ==> #[trigger] s@.subrange(j, j + pat@.len()) != pat@,
        decreases n - i,
    {
        let mut k: usize = 0;
        let mut same = true;
        while k < m
            invariant
                k <= m,
                m <= n,
                i + m <= n,
                n == sc@.len(),
                m == pc@.len(),
                sc@ == s@,
                pc@ == pat@,
                same <==> (forall|q: int| 0 <= q < k ==> s@[i + q] == #[trigger] pat@[q]),
            decreases m - k,
        {
            if sc[i + k] != pc[k] {
                same = false;
            }
            k = k + 1;
        }
        if same {
            proof {
                assert(s@.subrange(i as int, i as int + pat@.len()) =~= pat@);
            }
            return true;
        }
        proof {
            if s@.subrange(i as int, i as int + pat@.len()) == pat@ {
                assert forall|q: int| 0 <= q < m implies s@[i + q] == pat@[q] by {
                    assert(s@.subrange(i as int, i as int + pat@.len())[q] == pat@[q]);
                }
            }
        }
        i = i + 1;
    }
    proof {
        assert forall|j: int|
            0 <= j && j + pat@.len() <= s@.len() implies #[trigger] s@.subrange(
            j,
            j + pat@.len(),
        ) != pat@ by {
            assert(j < i);
        }
    }
    false
}

/// Classifies a failed result poll: a missing transaction or a body naming
/// the pending state means "poll again later", anything else is an upstream
/// error carrying the body.
pub fn classify_oidvp_failure(http_status: u16, body: &str) -> (r: OidvpError)
    requires
        !(200 <= http_status < 300),
    ensures
        oidvp_not_ready(http_status, body@) ==> r is NotReady,
        !oidvp_not_ready(http_status, body@) ==> (r matches OidvpError::ApiError(m) && m@
            == body@),
{
    if http_status == 404 {
        return OidvpError::NotReady;
    }
    proof {
        reveal_strlit("not ready");
        reveal_strlit("61010");
        reveal_strlit("verify result not found");
    }
    if contains_str(body, "not ready") || contains_str(body, "61010") || contains_str(
        body,
        "verify result not found",
    ) {
        OidvpError::NotReady
    } else {
        OidvpError::ApiError(body.to_owned())
    }
}

/// The prefix a data-URL-wrapped QR image carries.
pub open spec fn data_url_prefix() -> Seq<char> {
    "data:image/png;base64,"@
}

/// Strips the data-URL prefix from a QR image when it carries one, since the
/// consumer adds its own.
pub fn strip_qr_prefix(image: &str) -> (r: String)
    ensures
        image@.len() >= data_url_prefix().len() && image@.subrange(
            0,
            data_url_prefix().len() as int,
        ) == data_url_prefix() ==> r@ == image@.subrange(
            data_url_prefix().len() as int,
            image@.len() as int,
        ),
        !(image@.len() >= data_url_prefix().len() && image@.subrange(
            0,
            data_url_prefix().len() as int,
        ) == data_url_prefix()) ==> r@ == image@,
{
    proof {
        reveal_strlit("data:image/png;base64,");
    }
    let cs = strutil::chars_of(image);
    let prefix = strutil::chars_of("data:image/png;base64,");
    let plen = prefix.len();
    if cs.len() < plen {
        proof {
            assert(image@.len() < data_url_prefix().len());
        }
        return image.to_owned();
    }
    let mut k: usize = 0;
    let mut same = true;
    while k < plen
        invariant
            k <= plen,
            plen <= cs@.len(),
            cs@ == image@,
            prefix@ == data_url_prefix(),
            plen == data_url_prefix().len(),
            same <==> (forall|q: int| 0 <= q < k ==> #[trigger] image@[q] == data_url_prefix()[q]),
        decreases plen - k,
    {
        if cs[k] != prefix[k] {
            same = false;
        }
        k = k + 1;
    }
    if !same {
        proof {
            if image@.subrange(0, data_url_prefix().len() as int) == data_url_prefix() {
                assert forall|q: int|
                    0 <= q < data_url_prefix().len() implies image@[q] == data_url_prefix()[q] by {
                    assert(image@.subrange(0, data_url_prefix().len() as int)[q]
                        == data_url_prefix()[q]);
                }
            }
        }
        return image.to_owned();
    }
    proof {
        assert(image@.subrange(0, data_url_prefix().len() as int) =~= data_url_prefix());
    }
    let mut out: Vec<char> = Vec::new();
    let mut i: usize = plen;
    while i < cs.len()
        invariant
            plen <= i <= cs@.len(),
            cs@ == image@,
            out@ == image@.subrange(plen as int, i as int),
        decreases cs@.len() - i,
    {
        out.push(cs[i]);
        i = i + 1;
        proof {
            assert(out@ =~= image@.subrange(plen as int, i as int));
        }
    }
    proof {
        assert(out@ =~= image@.subrange(plen as int, image@.len() as int));
    }
    strutil::string_from_chars(&out)
}

/// What the QR-request endpoint hands its caller: the minted presentation
/// QR with the fixed time-to-live the session carries.
#[derive(Debug)]
pub struct RequestQrResponse {
    pub transaction_id: String,
    pub qrcode_image: String,
    pub auth_uri: String,
    pub expires_in_seconds: i64,
}

/// Shapes a minted presentation QR for the caller: the image loses its
/// data-URL prefix, since the consumer adds its own, and the answer carries
/// the session's fixed time-to-live.
pub fn prepare_qr_response(qr: QrCodeResponse) -> (r: RequestQrResponse)
    ensures
        r.transaction_id == qr.transaction_id,
        r.auth_uri == qr.auth_uri,
        r.expires_in_seconds == 300,
        qr.qrcode_image@.len() >= data_url_prefix().len() && qr.qrcode_image@.subrange(
            0,
            data_url_prefix().len() as int,
        ) == data_url_prefix() ==> r.qrcode_image@ == qr.qrcode_image@.subrange(
            data_url_prefix().len() as int,
            qr.qrcode_image@.len() as int,
        ),
        !(qr.qrcode_image@.len() >= data_url_prefix().len() && qr.qrcode_image@.subrange(
            0,
            data_url_prefix().len() as int,
        ) == data_url_prefix()) ==> r.qrcode_image@ == qr.qrcode_image@,
{
    let qrcode_image = strip_qr_prefix(qr.qrcode_image.as_str());
    RequestQrResponse {
        transaction_id: qr.transaction_id,
        qrcode_image,
        auth_uri: qr.auth_uri,
        expires_in_seconds: 300,
    }
}

/// The pairs member-info flattening yields: for each credential its type
/// under the fixed key, then each claim's name with its value, in order.
pub open spec fn member_info_pairs(creds: Seq<CredentialData>) -> Seq<(Seq<char>, Seq<char>)>
    decreases creds.len(),
{
    if creds.len() == 0 {
        Seq::empty()
    } else {
        member_info_pairs(creds.drop_last()) + seq![
            ("credentialType"@, creds.last().credential_type@),
        ] + claim_pairs(creds.last().claims@)
    }
}

/// The pairs one credential's claims yield.
pub open spec fn claim_pairs(claims: Seq<ClaimData>) -> Seq<(Seq<char>, Seq<char>)>
    decreases claims.len(),
{
    if claims.len() == 0 {
        Seq::empty()
    } else {
        claim_pairs(claims.drop_last()) + seq![(claims.last().ename@, claims.last().value@)]
    }
}

/// Flattens presented credentials into key/value pairs for display: nothing
/// when no credential was presented; otherwise each credential's type and
/// its claims' names and values. A later pair wins over an earlier one when
/// read through `lookup_value`, as a map built by insertion would behave.
pub fn extract_member_info(credentials: &Vec<CredentialData>) -> (r: Option<
    Vec<(String, String)>,
>)
    ensures
        credentials@.len() == 0 <==> r is None,
        r matches Some(pairs) ==> pairs.deep_view() == member_info_pairs(credentials@),
{
    if credentials.len() == 0 {
        return None;
    }
    let mut out: Vec<(String, String)> = Vec::new();
    let mut i: usize = 0;
    while i < credentials.len()
        invariant
            i <= credentials@.len(),
            out.deep_view() == member_info_pairs(credentials@.subrange(0, i as int)),
        decreases credentials@.len() - i,
    {
        proof {
            assert(credentials@.subrange(0, i as int + 1).drop_last() =~= credentials@.subrange(
                0,
                i as int,
            ));
            assert(credentials@.subrange(0, i as int + 1).last() == credentials@[i as int]);
        }
        let c = &credentials[i];
        let type_pair = (String::from_str("credentialType"), dup_string(&c.credential_type));
        proof {
            assert(type_pair.deep_view() == (
                "credentialType"@,
                credentials@[i as int].credential_type@,
            ));
        }
        out.push(type_pair);
        proof {
            assert(out.deep_view() =~= member_info_pairs(credentials@.subrange(0, i as int))
                + seq![("credentialType"@, credentials@[i as int].credential_type@)]);
        }
        let mut k: usize = 0;
        while k < c.claims.len()
            invariant
                k <= c.claims@.len(),
                c == &credentials[i as int],
                i < credentials@.len(),
                out.deep_view() == member_info_pairs(credentials@.subrange(0, i as int)) + seq![
                    ("credentialType"@, credentials@[i as int].credential_type@),
                ] + claim_pairs(c.claims@.subrange(0, k as int)),
            decreases c.claims@.len() - k,
        {
            proof {
                assert(c.claims@.subrange(0, k as int + 1).drop_last() =~= c.claims@.subrange(
                    0,
                    k as int,
                ));
                assert(c.claims@.subrange(0, k as int + 1).last() == c.claims@[k as int]);
            }
            let claim_pair = (dup_string(&c.claims[k].ename), dup_string(&c.claims[k].value));
            let ghost prev = out.deep_view();
            proof {
                assert(claim_pair.deep_view() == (
                    c.claims@[k as int].ename@,
                    c.claims@[k as int].value@,
                ));
            }
            out.push(claim_pair);
            k = k + 1;
            proof {
                assert(out.deep_view() =~= prev + seq![
                    (c.claims@[k as int - 1].ename@, c.claims@[k as int - 1].value@),
                ]);
                assert(claim_pairs(c.claims@.subrange(0, k as int)) =~= claim_pairs(
                    c.claims@.subrange(0, k as int - 1),
                ) + seq![(c.claims@[k as int - 1].ename@, c.claims@[k as int - 1].value@)]);
                assert(out.deep_view() =~= member_info_pairs(credentials@.subrange(0, i as int))
                    + seq![("credentialType"@, credentials@[i as int].credential_type@)]
                    + claim_pairs(c.claims@.subrange(0, k as int)));
            }
        }
        i = i + 1;
        proof {
            assert(c.claims@.subrange(0, c.claims@.len() as int) =~= c.claims@);
            assert(out.deep_view() =~= member_info_pairs(credentials@.subrange(0, i as int)));
        }
    }
    proof {
        assert(credentials@.subrange(0, credentials@.len() as int) =~= credentials@);
    }
    Some(out)
}

/// The value of the last pair carrying the key, the way reading a map built
/// by insertion would answer.
pub fn lookup_value(pairs: &Vec<(String, String)>, key: &str) -> (r: Option<String>)
    ensures
        match r {
            Some(s) => crate::references::last_value_for_key(pairs.deep_view(), key@) == Some(s@),
            None => crate::references::last_value_for_key(pairs.deep_view(), key@) is None,
        },
{
    crate::references::find_query_value(pairs, key)
}

/// The state of an ephemeral verification session. It is created Pending
/// and moves to Completed, Expired or Failed exactly once.
#[derive(Debug, Clone, Copy, PartialEq, Eq, Structural)]
pub enum SessionStatus {
    Pending,
    Completed,
    Expired,
    Failed,
}

/// An ephemeral verification transaction: created on QR request with a
/// fixed five-minute time-to-live.
#[derive(Debug)]
pub struct VerificationSession {
    pub transaction_id: String,
    pub qrcode_image: String,
    pub auth_uri: String,
    pub status: SessionStatus,
    pub verify_result: Option<bool>,
    pub result_description: Option<String>,
    pub result_data: Option<String>,
    pub created_at: i64,
    pub completed_at: Option<i64>,
    pub expires_at: i64,
}

impl VerificationSession {
    /// Opens a session: Pending, expiring five minutes from now.
    pub fn create(
        transaction_id: String,
        qrcode_image: String,
        auth_uri: String,
        now: i64,
    ) -> (r: VerificationSession)
        requires
            now <= i64::MAX - 300,
        ensures
            r.transaction_id == transaction_id,
            r.qrcode_image == qrcode_image,
            r.auth_uri == auth_uri,
            r.status is Pending,
            r.verify_result is None,
            r.created_at == now,
            r.completed_at is None,
            r.expires_at == now + 300,
    {
        VerificationSession {
            transaction_id,
            qrcode_image,
            auth_uri,
            status: SessionStatus::Pending,
            verify_result: None,
            result_description: None,
            result_data: None,
            created_at: now,
            completed_at: None,
            expires_at: now + 300,
        }
    }

    /// Whether the session's time-to-live has run out.
    pub fn is_expired(&self, now: i64) -> (r: bool)
        ensures
            r == (now > self.expires_at),
    {
        now > self.expires_at
    }

    /// Whether the session still waits for a scan: Pending and within its
    /// time-to-live.
    pub fn is_pending(&self, now: i64) -> (r: bool)
        ensures
            r == (self.status is Pending && now <= self.expires_at),
    {
        let pending = match self.status {
            SessionStatus::Pending => true,
            _ => false,
        };
        pending && !self.is_expired(now)
    }

    /// Records the presentation result: a Pending session completes exactly
    /// once; any other state stays as it is.
    pub fn update_result(
        &mut self,
        verify_result: bool,
        result_description: String,
        result_data: Option<String>,
        now: i64,
    )
        ensures
            old(self).status is Pending ==> *final(self) == (VerificationSession {
                status: SessionStatus::Completed,
                verify_result: Some(verify_result),
                result_description: Some(result_description),
                result_data,
                completed_at: Some(now),
                ..*old(self)
            }),
            !(old(self).status is Pending) ==> *final(self) == *old(self),
    {
        let pending = match self.status {
            SessionStatus::Pending => true,
            _ => false,
        };
        if pending {
            self.status = SessionStatus::Completed;
            self.verify_result = Some(verify_result);
            self.result_description = Some(result_description);
            self.result_data = result_data;
            self.completed_at = Some(now);
        }
    }

    /// Marks a Pending session Expired; any other state stays as it is.
    pub fn mark_expired(&mut self)
        ensures
            old(self).status is Pending ==> *final(self) == (VerificationSession {
                status: SessionStatus::Expired,
                ..*old(self)
            }),
            !(old(self).status is Pending) ==> *final(self) == *old(self),
    {
        let pending = match self.status {
            SessionStatus::Pending => true,
            _ => false,
        };
        if pending {
            self.status = SessionStatus::Expired;
        }
    }

    /// Marks a Pending session Failed with the reason; any other state stays
    /// as it is.
    pub fn mark_failed(&mut self, error_message: String)
        ensures
            old(self).status is Pending ==> *final(self) == (VerificationSession {
                status: SessionStatus::Failed,
                result_description: Some(error_message),
                ..*old(self)
            }),
            !(old(self).status is Pending) ==> *final(self) == *old(self),
    {
        let pending = match self.status {
            SessionStatus::Pending => true,
            _ => false,
        };
        if pending {
            self.status = SessionStatus::Failed;
            self.result_description = Some(error_message);
        }
    }
}

} // verus!
