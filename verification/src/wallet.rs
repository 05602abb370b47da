//! The wallet credential bridge: decides health of the wallet issuer API,
//! sanitizes what is sent to it, classifies its polling answers — a specific
//! upstream code means "not yet scanned", never a hard error — and extracts
//! the stable credential identifier from the token's claims.
use vstd::prelude::*;

use base64::Engine;
use crate::cards::MembershipCard;
use crate::strutil;
use vstd::string::StringExecFns;
use vstd::utf8::{decode_utf8, valid_utf8};

verus! {

#[derive(Debug, Clone, PartialEq, Eq)]
pub enum WalletQrError {
    ApiError(String),
    MissingVcUid,
    InvalidJwt(String),
    CredentialNotReady,
}

/// One field of a wallet credential request.
#[derive(Debug)]
pub struct WalletQrField {
    pub ename: String,
    pub content: String,
}

/// What the wallet issuer answers when minting a QR credential.
#[derive(Debug)]
pub struct WalletQrResponse {
    pub transaction_id: String,
    pub qr_code: String,
    pub deep_link: String,
}

/// What the wallet issuer answers when the credential has been claimed.
#[derive(Debug)]
pub struct CredentialResponse {
    pub credential: String,
}

/// Whether the wallet API counts as healthy: any server error means down.
pub fn wallet_healthy(http_status: u16) -> (r: bool)
    ensures
        r == !(500 <= http_status < 600),
{
    !(500 <= http_status && http_status < 600)
}

/// Whether a character may appear in a display name sent to the wallet
/// backend: alphanumerics, the underscore, and CJK ideographs.
pub open spec fn wallet_name_char(c: char) -> bool {
    strutil::unicode_alphanumeric(c) || c == '_' || (0x4e00 <= c as u32 && c as u32 <= 0x9fff)
}

/// The characters of a name that the wallet backend accepts, in order.
pub open spec fn sanitized_name(s: Seq<char>) -> Seq<char>
    decreases s.len(),
{
    if s.len() == 0 {
        Seq::empty()
    } else {
        sanitized_name(s.drop_last()) + if wallet_name_char(s.last()) {
            seq![s.last()]
        } else {
            Seq::<char>::empty()
        }
    }
}

/// Strips from a display name every character the wallet backend rejects;
/// an empty result falls back to a fixed placeholder.
pub fn sanitize_display_name(name: &str) -> (r: String)
    ensures
        sanitized_name(name@).len() > 0 ==> r@ == sanitized_name(name@),
        sanitized_name(name@).len() == 0 ==> r@ == "Member"@,
{
    let cs = strutil::chars_of(name);
    let mut kept: Vec<char> = Vec::new();
    let mut i: usize = 0;
    while i < cs.len()
        invariant
            i <= cs@.len(),
            cs@ == name@,
            kept@ == sanitized_name(name@.subrange(0, i as int)),
        decreases cs@.len() - i,
    {
        proof {
            assert(name@.subrange(0, i as int + 1).drop_last() =~= name@.subrange(0, i as int));
            assert(name@.subrange(0, i as int + 1).last() == name@[i as int]);
        }
        let c = cs[i];
        let is_cjk = (c as u32) >= 0x4e00 && (c as u32) <= 0x9fff;
        if strutil::char_is_alphanumeric(c) || c == '_' || is_cjk {
            kept.push(c);
            proof {
                assert(kept@ =~= sanitized_name(name@.subrange(0, i as int + 1)));
            }
        } else {
            proof {
                assert(kept@ =~= sanitized_name(name@.subrange(0, i as int + 1)));
            }
        }
        i = i + 1;
    }
    proof {
        assert(name@.subrange(0, name@.len() as int) =~= name@);
    }
    if kept.len() == 0 {
        String::from_str("Member")
    } else {
        strutil::string_from_chars(&kept)
    }
}

/// What reading the string at a top-level key of a JSON object yields;
/// fixed by the text and the key alone.
pub uninterp spec fn json_string_field(s: Seq<char>, key: Seq<char>) -> Option<Seq<char>>;

/// Relies on serde_json::from_str::<Value>, Value::get and Value::as_str:
/// the string at the given top-level key, when the text is a JSON object
/// holding a string there, and nothing otherwise.
#[verifier::external_body]
pub(crate) fn json_str_field(s: &str, key: &str) -> (r: Option<String>)
    ensures
        r matches Some(v) ==> json_string_field(s@, key@) == Some(v@),
        r is None ==> json_string_field(s@, key@) is None,
{
    match serde_json::from_str::<serde_json::Value>(s) {
        Ok(v) => v.get(key).and_then(|x| x.as_str()).map(|x| x.to_string()),
        Err(_) => None,
    }
}

/// What base64url decoding without padding yields; fixed by the text alone.
pub uninterp spec fn base64url_decoded(s: Seq<char>) -> Option<Seq<u8>>;

/// Relies on base64's URL_SAFE_NO_PAD engine: decodes base64url text
/// without padding, and rejects anything else.
#[verifier::external_body]
fn b64url_decode(s: &str) -> (r: Option<Vec<u8>>)
    ensures
        r matches Some(v) ==> base64url_decoded(s@) == Some(v@),
        r is None ==> base64url_decoded(s@) is None,
{
    base64::engine::general_purpose::URL_SAFE_NO_PAD.decode(s).ok()
}

/// The key under which a wallet error body carries its code.
pub open spec fn code_key() -> Seq<char> {
    seq!['c', 'o', 'd', 'e']
}

/// The upstream code that means "not yet scanned".
pub open spec fn not_ready_code() -> Seq<char> {
    seq!['6', '1', '0', '1', '0']
}

/// The key under which a successful poll carries the credential token.
pub open spec fn credential_key() -> Seq<char> {
    seq!['c', 'r', 'e', 'd', 'e', 'n', 't', 'i', 'a', 'l']
}

/// The key of the claim naming the credential.
pub open spec fn jti_key() -> Seq<char> {
    seq!['j', 't', 'i']
}

/// Whether a poll answer's body carries the "not yet scanned" code.
pub open spec fn body_says_not_ready(body: Seq<char>) -> bool {
    json_string_field(body, code_key()) == Some(not_ready_code())
}

/// Classifies a credential poll answer. Outside the success range, a 404 or
/// the specific upstream code means the credential is not ready yet — a
/// legitimate pending state, never conflated with a hard error. Within the
/// success range, that code still means pending; otherwise the body must
/// carry the credential token.
pub fn classify_poll_response(http_status: u16, body: &str) -> (r: Result<
    CredentialResponse,
    WalletQrError,
>)
    ensures
        !(200 <= http_status < 300) ==> (if http_status == 404 || body_says_not_ready(body@) {
            r matches Err(e) && e is CredentialNotReady
        } else {
            r matches Err(e) && e is ApiError
        }),
        200 <= http_status < 300 ==> (if body_says_not_ready(body@) {
            r matches Err(e) && e is CredentialNotReady
        } else {
            match json_string_field(body@, credential_key()) {
                Some(cred) => r matches Ok(c) && c.credential@ == cred,
                None => r matches Err(e) && e is ApiError,
            }
        }),
{
    proof {
        reveal_strlit("code");
        reveal_strlit("61010");
        reveal_strlit("credential");
        assert("code"@ =~= code_key());
        assert("61010"@ =~= not_ready_code());
        assert("credential"@ =~= credential_key());
    }
    let code = json_str_field(body, "code");
    let not_ready = match &code {
        Some(c) => strutil::chars_eq(c.as_str(), "61010"),
        None => false,
    };
    if !(200 <= http_status && http_status < 300) {
        if http_status == 404 || not_ready {
            Err(WalletQrError::CredentialNotReady)
        } else {
            Err(WalletQrError::ApiError(body.to_owned()))
        }
    } else {
        if not_ready {
            Err(WalletQrError::CredentialNotReady)
        } else {
            match json_str_field(body, "credential") {
                Some(credential) => Ok(CredentialResponse { credential }),
                None => Err(
                    WalletQrError::ApiError(
                        String::from_str("Failed to parse credential response"),
                    ),
                ),
            }
        }
    }
}

/// Classifies the wallet issuer's answer to a mint request: outside the
/// success range the status and body surface as an upstream error; a
/// successful answer must carry the transaction identifier, the QR data and
/// the deep link.
pub fn classify_mint_response(
    http_status: u16,
    fields: Option<(String, String, String)>,
    body: &str,
) -> (r: Result<WalletQrResponse, WalletQrError>)
    ensures
        !(200 <= http_status < 300) ==> (r matches Err(e) && e is ApiError),
        200 <= http_status < 300 ==> (match fields {
            Some(f) => r matches Ok(w) && w.transaction_id == f.0 && w.qr_code == f.1
                && w.deep_link == f.2,
            None => r matches Err(e) && e is ApiError,
        }),
{
    if !(200 <= http_status && http_status < 300) {
        return Err(WalletQrError::ApiError(body.to_owned()));
    }
    match fields {
        Some(f) => Ok(WalletQrResponse { transaction_id: f.0, qr_code: f.1, deep_link: f.2 }),
        None => Err(
            WalletQrError::ApiError(String::from_str("Failed to parse wallet response")),
        ),
    }
}

/// How many times a character occurs in a string.
pub open spec fn count_char(s: Seq<char>, c: char) -> int
    decreases s.len(),
{
    if s.len() == 0 {
        0
    } else {
        count_char(s.drop_last(), c) + if s.last() == c {
            1int
        } else {
            0int
        }
    }
}

/// The first index at or after `from` holding the character, or the length
/// when there is none.
pub open spec fn find_char_from(s: Seq<char>, c: char, from: int) -> int
    recommends
        0 <= from <= s.len(),
    decreases s.len() - from,
{
    if from >= s.len() {
        s.len() as int
    } else if s[from] == c {
        from
    } else {
        find_char_from(s, c, from + 1)
    }
}

/// The last index holding the character, or -1 when there is none.
pub open spec fn rfind_char(s: Seq<char>, c: char) -> int
    decreases s.len(),
{
    if s.len() == 0 {
        -1
    } else if s.last() == c {
        s.len() - 1
    } else {
        rfind_char(s.drop_last(), c)
    }
}

/// The final path segment: everything after the last slash, or the whole
/// string when there is no slash.
pub open spec fn last_segment(s: Seq<char>) -> Seq<char> {
    s.subrange(rfind_char(s, '/') + 1, s.len() as int)
}

/// The middle part of a three-part token: the characters between the first
/// and the second dot.
pub open spec fn jwt_payload_part(s: Seq<char>) -> Seq<char> {
    let i = find_char_from(s, '.', 0);
    let j = find_char_from(s, '.', i + 1);
    s.subrange(i + 1, j)
}

/// Extracts the credential identifier from a claim naming it as the final
/// segment of a credential URL. Fails exactly on an empty segment.
pub fn cid_from_jti(jti: &str) -> (r: Result<String, WalletQrError>)
    ensures
        match r {
            Ok(c) => c@ == last_segment(jti@) && last_segment(jti@).len() > 0,
            Err(e) => e is InvalidJwt && last_segment(jti@).len() == 0,
        },
{
    let cs = strutil::chars_of(jti);
    let n = cs.len();
    let mut slash: Option<usize> = None;
    let mut i: usize = 0;
    while i < n
        invariant
            i <= n,
            n == cs@.len(),
            cs@ == jti@,
            match slash {
                Some(p) => p < i && rfind_char(jti@.subrange(0, i as int), '/') == p,
                None => rfind_char(jti@.subrange(0, i as int), '/') == -1,
            },
        decreases n - i,
    {
        proof {
            assert(jti@.subrange(0, i as int + 1).drop_last() =~= jti@.subrange(0, i as int));
            assert(jti@.subrange(0, i as int + 1).last() == jti@[i as int]);
        }
        if cs[i] == '/' {
            slash = Some(i);
        }
        i = i + 1;
    }
    proof {
        assert(jti@.subrange(0, n as int) =~= jti@);
    }
    let start: usize = match slash {
        Some(p) => p + 1,
        None => 0,
    };
    let mut seg: Vec<char> = Vec::new();
    let mut k: usize = start;
    while k < n
        invariant
            start <= k <= n,
            n == cs@.len(),
            cs@ == jti@,
            start as int == rfind_char(jti@, '/') + 1,
            seg@ == jti@.subrange(start as int, k as int),
        decreases n - k,
    {
        seg.push(cs[k]);
        k = k + 1;
        proof {
            assert(seg@ =~= jti@.subrange(start as int, k as int));
        }
    }
    proof {
        assert(seg@ =~= last_segment(jti@));
    }
    if seg.len() == 0 {
        Err(WalletQrError::InvalidJwt(String::from_str("CID extracted from jti is empty")))
    } else {
        Ok(strutil::string_from_chars(&seg))
    }
}

/// What extracting the credential identifier from a token yields: nothing
/// unless the token has three dot-separated parts whose middle decodes as
/// base64url to UTF-8 JSON with a `jti` string whose final path segment is
/// nonempty; that segment otherwise.
pub open spec fn cid_of_jwt(s: Seq<char>) -> Option<Seq<char>> {
    if count_char(s, '.') != 2 {
        None
    } else {
        match base64url_decoded(jwt_payload_part(s)) {
            None => None,
            Some(bytes) => if !valid_utf8(bytes) {
                None
            } else {
                match json_string_field(decode_utf8(bytes), jti_key()) {
                    None => None,
                    Some(jti) => if last_segment(jti).len() == 0 {
                        None
                    } else {
                        Some(last_segment(jti))
                    },
                }
            },
        }
    }
}

/// Extracts the CID from the credential token: the final path segment of
/// the token's `jti` claim, read without verifying the token's signature —
/// the identifier is opaque and serves only as a bookkeeping key.
pub fn extract_cid_from_jwt(jwt_token: &str) -> (r: Result<String, WalletQrError>)
    ensures
        match r {
            Ok(c) => cid_of_jwt(jwt_token@) == Some(c@),
            Err(e) => e is InvalidJwt && cid_of_jwt(jwt_token@) is None,
        },
{
    proof {
        reveal_strlit("jti");
        assert("jti"@ =~= jti_key());
    }
    let cs = strutil::chars_of(jwt_token);
    let n = cs.len();
    let mut dot1: Option<usize> = None;
    let mut dot2: Option<usize> = None;
    let mut dots: u64 = 0;
    let mut i: usize = 0;
    while i < n
        invariant
            i <= n,
            dots <= i,
            n == cs@.len(),
            cs@ == jwt_token@,
            dots == count_char(jwt_token@.subrange(0, i as int), '.'),
            dots == 0 ==> dot1 is None && dot2 is None && (forall|j: int|
                0 <= j < i ==> jwt_token@[j] != '.'),
            dots == 1 ==> dot2 is None && (dot1 matches Some(p) && p < i && jwt_token@[p as int]
                == '.' && p == find_char_from(jwt_token@, '.', 0) && (forall|j: int|
                p < j < i ==> jwt_token@[j] != '.')),
            dots >= 2 ==> (dot1 matches Some(p) && dot2 matches Some(q) && p < q < i && p
                == find_char_from(jwt_token@, '.', 0) && q == find_char_from(
                jwt_token@,
                '.',
                p + 1,
            )),
        decreases n - i,
    {
        proof {
            assert(jwt_token@.subrange(0, i as int + 1).drop_last() =~= jwt_token@.subrange(
                0,
                i as int,
            ));
            assert(jwt_token@.subrange(0, i as int + 1).last() == jwt_token@[i as int]);
        }
        if cs[i] == '.' {
            if dots == 0 {
                dot1 = Some(i);
                proof {
                    lemma_find_char_first(jwt_token@, '.', 0, i as int);
                }
            } else if dots == 1 {
                dot2 = Some(i);
                proof {
                    match dot1 {
                        Some(p) => {
                            lemma_find_char_first(jwt_token@, '.', p as int + 1, i as int);
                        },
                        None => {
                            assert(false);
                        },
                    }
                }
            }
            dots = dots + 1;
        }
        i = i + 1;
    }
    proof {
        assert(jwt_token@.subrange(0, n as int) =~= jwt_token@);
    }
    if dots != 2 {
        return Err(
            WalletQrError::InvalidJwt(String::from_str("JWT token does not have 3 parts")),
        );
    }
    let p1 = match dot1 {
        Some(p) => p,
        None => {
            proof {
                assert(false);
            }
            0
        },
    };
    let p2 = match dot2 {
        Some(p) => p,
        None => {
            proof {
                assert(false);
            }
            0
        },
    };
    let mut part: Vec<char> = Vec::new();
    let mut k: usize = p1 + 1;
    while k < p2
        invariant
            p1 + 1 <= k <= p2 < n,
            n == cs@.len(),
            cs@ == jwt_token@,
            part@ == jwt_token@.subrange(p1 as int + 1, k as int),
        decreases p2 - k,
    {
        part.push(cs[k]);
        k = k + 1;
        proof {
            assert(part@ =~= jwt_token@.subrange(p1 as int + 1, k as int));
        }
    }
    proof {
        assert(part@ =~= jwt_payload_part(jwt_token@));
    }
    let part_str = strutil::string_from_chars(&part);
    let payload_bytes = match b64url_decode(part_str.as_str()) {
        Some(b) => b,
        None => {
            return Err(WalletQrError::InvalidJwt(String::from_str("Failed to decode base64")));
        },
    };
    let ghost bytes_view = payload_bytes@;
    let payload_text = match crate::encryption::bytes_to_string(payload_bytes) {
        Some(t) => t,
        None => {
            return Err(WalletQrError::InvalidJwt(String::from_str("Failed to parse JSON")));
        },
    };
    let jti = match json_str_field(payload_text.as_str(), "jti") {
        Some(j) => j,
        None => {
            return Err(WalletQrError::InvalidJwt(String::from_str("Failed to parse JSON")));
        },
    };
    match cid_from_jti(jti.as_str()) {
        Ok(c) => Ok(c),
        Err(e) => Err(e),
    }
}

/// What a poll answer grants: the credential token exactly when the answer
/// is successful, does not name the pending state, and carries the token.
pub open spec fn poll_grants_credential(status: u16, body: Seq<char>) -> Option<Seq<char>> {
    if 200 <= status < 300 && !body_says_not_ready(body) {
        json_string_field(body, credential_key())
    } else {
        None
    }
}

/// Whether a poll answer means only "not yet scanned": a missing
/// transaction, or the pending code in the body, whatever the status.
pub open spec fn poll_pending(status: u16, body: Seq<char>) -> bool {
    body_says_not_ready(body) || (!(200 <= status < 300) && status == 404)
}

/// Completes the wallet scan for a card. When the card already carries a
/// credential identifier the store stays as it is and that identifier comes
/// back — the scan is recorded exactly once. Otherwise the first poll answer
/// granting a credential token with a readable identifier stores it with the
/// scan time and returns it; a pending answer surfaces as CredentialNotReady,
/// any other failure as its own error, each leaving the store untouched.
pub fn complete_wallet_scan(
    cards: &mut crate::store::CardStore,
    card_id: u64,
    poll_status: u16,
    poll_body: &str,
    now: i64,
) -> (r: Result<String, WalletQrError>)
    requires
        crate::store::store_wf(old(cards)),
    ensures
        crate::store::store_wf(final(cards)),
        !crate::store::has_card(old(cards).cards@, card_id) ==> (r matches Err(e)
            && e is ApiError && *final(cards) == *old(cards)),
        forall|i: int|
            0 <= i < old(cards).cards@.len() && (#[trigger] old(cards).cards@[i]).id == card_id
                && old(cards).cards@[i].wallet_cid is Some ==> *final(cards) == *old(cards) && (
            r matches Ok(c) && Some(c@) == view_of_cid(old(cards).cards@[i].wallet_cid)),
        (exists|i: int|
            0 <= i < old(cards).cards@.len() && (#[trigger] old(cards).cards@[i]).id == card_id
                && old(cards).cards@[i].wallet_cid is None) ==> (match poll_grants_credential(
            poll_status,
            poll_body@,
        ) {
            None => *final(cards) == *old(cards) && (r matches Err(e) && (if poll_pending(
                poll_status,
                poll_body@,
            ) {
                e is CredentialNotReady
            } else {
                e is ApiError
            })),
            Some(cred) => match cid_of_jwt(cred) {
                None => *final(cards) == *old(cards) && (r matches Err(e) && e is InvalidJwt),
                Some(cid) => (r matches Ok(c) && c@ == cid) && final(cards).cards@.len() == old(
                    cards,
                ).cards@.len() && final(cards).next_id == old(cards).next_id && (forall|j: int|
                    0 <= j < old(cards).cards@.len() ==> final(cards).cards@[j] == (if (
                    #[trigger] old(cards).cards@[j]).id == card_id {
                        MembershipCard {
                            wallet_cid: final(cards).cards@[j].wallet_cid,
                            wallet_scanned_at: Some(now),
                            ..old(cards).cards@[j]
                        }
                    } else {
                        old(cards).cards@[j]
                    })) && (forall|j: int|
                    0 <= j < old(cards).cards@.len() && (#[trigger] old(cards).cards@[j]).id
                        == card_id ==> (final(cards).cards@[j].wallet_cid matches Some(s) && s@
                        == cid)),
            },
        }),
        r matches Ok(c) ==> exists|i: int|
            0 <= i < final(cards).cards@.len() && (#[trigger] final(cards).cards@[i]).id == card_id
                && (final(cards).cards@[i].wallet_cid matches Some(stored) && stored@ == c@),
{
    let card = match cards.find_by_id(card_id) {
        Some(c) => c,
        None => {
            return Err(WalletQrError::ApiError(String::from_str("No card for this scan")));
        },
    };
    let ghost oi = choose|i: int|
        0 <= i < cards.cards@.len() && #[trigger] cards.cards@[i] == card;
    proof {
        assert forall|i: int|
            0 <= i < cards.cards@.len() && (#[trigger] cards.cards@[i]).id == card_id implies i
            == oi by {
            if i != oi {
                assert(cards.cards@[i].id != cards.cards@[oi].id);
            }
        }
    }
    if let Some(cid) = card.wallet_cid {
        proof {
            assert(cards.cards@[oi].id == card_id);
        }
        return Ok(cid);
    }
    let credential = match classify_poll_response(poll_status, poll_body) {
        Ok(c) => c,
        Err(e) => {
            return Err(e);
        },
    };
    let cid = match extract_cid_from_jwt(credential.credential.as_str()) {
        Ok(c) => c,
        Err(e) => {
            return Err(e);
        },
    };
    let stored = crate::cards::dup_string(&cid);
    cards.mark_wallet_scanned(card_id, stored, now);
    proof {
        assert(cards.cards@[oi].id == card_id);
        assert(cards.cards@[oi].wallet_cid matches Some(s2) && s2@ == cid@);
        assert forall|j: int|
            0 <= j < old(cards).cards@.len() && (#[trigger] old(cards).cards@[j]).id == card_id
                implies (final(cards).cards@[j].wallet_cid matches Some(s) && s@ == cid@) by {
            assert(j == oi);
        }
    }
    Ok(cid)
}

/// The view of an optional credential identifier.
pub open spec fn view_of_cid(cid: Option<String>) -> Option<Seq<char>> {
    match cid {
        Some(c) => Some(c@),
        None => None,
    }
}

/// The first occurrence of a character: nothing before it holds the
/// character, so the search from `from` stops exactly there.
proof fn lemma_find_char_first(s: Seq<char>, c: char, from: int, at: int)
    requires
        0 <= from <= at < s.len(),
        s[at] == c,
        forall|j: int| from <= j < at ==> s[j] != c,
    ensures
        find_char_from(s, c, from) == at,
    decreases at - from,
{
    if from < at {
        lemma_find_char_first(s, c, from + 1, at);
    }
}

/// Law: when the claim is a credential URL — a prefix, a slash, then a
/// nonempty identifier with no slash in it — extraction yields exactly that
/// identifier.
pub proof fn lemma_cid_of_credential_url(prefix: Seq<char>, cid: Seq<char>)
    requires
        cid.len() > 0,
        forall|i: int| 0 <= i < cid.len() ==> cid[i] != '/',
    ensures
        rfind_char(prefix + seq!['/'] + cid, '/') == prefix.len(),
        last_segment(prefix + seq!['/'] + cid) == cid,
    decreases cid.len(),
{
    let u = prefix + seq!['/'] + cid;
    if cid.len() == 1 {
        assert(u.drop_last() =~= prefix + seq!['/']);
        assert(u.last() == cid[0]);
        assert(rfind_char(u, '/') == rfind_char(u.drop_last(), '/'));
        assert((prefix + seq!['/']).last() == '/');
        assert(rfind_char(prefix + seq!['/'], '/') == prefix.len());
    } else {
        lemma_cid_of_credential_url(prefix, cid.drop_last());
        assert(u.drop_last() =~= prefix + seq!['/'] + cid.drop_last());
        assert(u.last() == cid.last());
        assert(rfind_char(u, '/') == rfind_char(u.drop_last(), '/'));
    }
    assert(last_segment(u) =~= cid);
}

} // verus!
