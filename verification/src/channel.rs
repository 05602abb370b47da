//! Channel lookup support: extracting a channel handle from the URL forms
//! people paste, classifying the upstream answer, and the bounded
//! exponential backoff schedule for retryable upstream trouble.
use vstd::prelude::*;

use crate::strutil;
use crate::strutil::{unicode_whitespace, chars_of};

verus! {

#[derive(Debug, Clone, PartialEq, Eq)]
pub enum YouTubeChannelError {
    InvalidUrl,
    NotFound,
    ApiError { status: u16, message: String },
    RateLimitExceeded,
    ServiceUnavailable,
}

/// Information on a channel as the upstream directory reports it.
#[derive(Debug)]
pub struct ChannelInfo {
    pub channel_id: String,
    pub channel_name: String,
    pub channel_handle: Option<String>,
}

/// A string with its leading whitespace stripped.
pub open spec fn trim_front(s: Seq<char>) -> Seq<char>
    decreases s.len(),
{
    if s.len() > 0 && unicode_whitespace(s[0]) {
        trim_front(s.drop_first())
    } else {
        s
    }
}

/// A string with its trailing whitespace stripped.
pub open spec fn trim_back(s: Seq<char>) -> Seq<char>
    decreases s.len(),
{
    if s.len() > 0 && unicode_whitespace(s.last()) {
        trim_back(s.drop_last())
    } else {
        s
    }
}

/// A string with whitespace stripped at both ends.
pub open spec fn trimmed(s: Seq<char>) -> Seq<char> {
    trim_back(trim_front(s))
}

/// The host-and-handle marker looked for in a pasted URL.
pub open spec fn handle_marker() -> Seq<char> {
    seq!['y', 'o', 'u', 't', 'u', 'b', 'e', '.', 'c', 'o', 'm', '/', '@']
}

/// Whether the marker stands at the given position.
pub open spec fn marker_at(s: Seq<char>, i: int) -> bool {
    0 <= i && i + 13 <= s.len() && s.subrange(i, i + 13) == handle_marker()
}

/// The first position carrying the marker, or -1.
pub open spec fn find_marker_from(s: Seq<char>, i: int) -> int
    recommends
        0 <= i,
    decreases s.len() - i + 13,
{
    if i + 13 > s.len() {
        -1
    } else if marker_at(s, i) {
        i
    } else {
        find_marker_from(s, i + 1)
    }
}

/// Whether a character ends a handle in a URL path.
pub open spec fn handle_delim(c: char) -> bool {
    c == '/' || c == '?' || c == '#'
}

/// The first position at or after `i` holding a delimiter, or the length.
pub open spec fn find_delim_from(s: Seq<char>, i: int) -> int
    recommends
        0 <= i <= s.len(),
    decreases s.len() - i,
{
    if i >= s.len() {
        s.len() as int
    } else if handle_delim(s[i]) {
        i
    } else {
        find_delim_from(s, i + 1)
    }
}

/// What handle extraction yields: a bare handle (after trimming) as it
/// stands; from a URL carrying the marker, the handle up to the next path
/// delimiter; nothing otherwise.
pub open spec fn channel_handle_of(s: Seq<char>) -> Option<Seq<char>> {
    let t = trimmed(s);
    if t.len() > 0 && t[0] == '@' {
        Some(t)
    } else {
        let m = find_marker_from(t, 0);
        if m >= 0 {
            Some(t.subrange(m + 12, find_delim_from(t, m + 12)))
        } else {
            None
        }
    }
}

/// Stripping leading whitespace keeps the suffix that starts at the first
/// non-whitespace character.
proof fn lemma_trim_front_is_suffix(s: Seq<char>, k: int)
    requires
        0 <= k <= s.len(),
        forall|j: int| 0 <= j < k ==> unicode_whitespace(#[trigger] s[j]),
        k < s.len() ==> !unicode_whitespace(s[k]),
    ensures
        trim_front(s) == s.subrange(k, s.len() as int),
    decreases k,
{
    if k == 0 {
        assert(s.subrange(0, s.len() as int) =~= s);
    } else {
        assert(unicode_whitespace(s[0]));
        lemma_trim_front_is_suffix(s.drop_first(), k - 1);
        assert(s.drop_first().subrange(k - 1, s.drop_first().len() as int) =~= s.subrange(
            k,
            s.len() as int,
        ));
    }
}

/// Stripping trailing whitespace keeps the prefix that ends after the last
/// non-whitespace character.
proof fn lemma_trim_back_is_prefix(s: Seq<char>, k: int)
    requires
        0 <= k <= s.len(),
        forall|j: int| k <= j < s.len() ==> unicode_whitespace(#[trigger] s[j]),
        k > 0 ==> !unicode_whitespace(s[k - 1]),
    ensures
        trim_back(s) == s.subrange(0, k),
    decreases s.len() - k,
{
    if k == s.len() {
        assert(s.subrange(0, k) =~= s);
    } else {
        assert(unicode_whitespace(s.last()));
        lemma_trim_back_is_prefix(s.drop_last(), k);
        assert(s.drop_last().subrange(0, k) =~= s.subrange(0, k));
    }
}

/// The marker search stops exactly at the first carrying position.
proof fn lemma_find_marker_first(s: Seq<char>, from: int, at: int)
    requires
        0 <= from <= at,
        marker_at(s, at),
        forall|j: int| from <= j < at ==> !marker_at(s, j),
    ensures
        find_marker_from(s, from) == at,
    decreases at - from,
{
    if from < at {
        lemma_find_marker_first(s, from + 1, at);
    }
}

/// The marker search finds nothing when no position carries the marker.
proof fn lemma_find_marker_none(s: Seq<char>, from: int)
    requires
        0 <= from,
        forall|j: int| from <= j ==> !marker_at(s, j),
    ensures
        find_marker_from(s, from) == -1,
    decreases s.len() - from + 13,
{
    if from + 13 <= s.len() {
        lemma_find_marker_none(s, from + 1);
    }
}

/// The delimiter search stops exactly at the first delimiter.
proof fn lemma_find_delim_first(s: Seq<char>, from: int, at: int)
    requires
        0 <= from <= at <= s.len(),
        at < s.len() ==> handle_delim(s[at]),
        at == s.len() || at < s.len(),
        forall|j: int| from <= j < at ==> !handle_delim(#[trigger] s[j]),
    ensures
        at < s.len() ==> find_delim_from(s, from) == at,
        at == s.len() ==> find_delim_from(s, from) == s.len(),
    decreases at - from,
{
    if from < at {
        lemma_find_delim_first(s, from + 1, at);
    }
}

/// Whether the marker stands at a position, decided by comparing characters.
fn marker_matches(t: &Vec<char>, i: usize) -> (r: bool)
    requires
        i + 13 <= t.len(),
    ensures
        r == marker_at(t@, i as int),
{
    let hit = t[i] == 'y' && t[i + 1] == 'o' && t[i + 2] == 'u' && t[i + 3] == 't' && t[i + 4]
        == 'u' && t[i + 5] == 'b' && t[i + 6] == 'e' && t[i + 7] == '.' && t[i + 8] == 'c' && t[i
        + 9] == 'o' && t[i + 10] == 'm' && t[i + 11] == '/' && t[i + 12] == '@';
    proof {
        if hit {
            assert(t@.subrange(i as int, i as int + 13) =~= handle_marker());
        } else {
            if t@.subrange(i as int, i as int + 13) == handle_marker() {
                assert(t@[i as int] == handle_marker()[0]);
                assert(t@[i as int + 1] == handle_marker()[1]);
                assert(t@[i as int + 2] == handle_marker()[2]);
                assert(t@[i as int + 3] == handle_marker()[3]);
                assert(t@[i as int + 4] == handle_marker()[4]);
                assert(t@[i as int + 5] == handle_marker()[5]);
                assert(t@[i as int + 6] == handle_marker()[6]);
                assert(t@[i as int + 7] == handle_marker()[7]);
                assert(t@[i as int + 8] == handle_marker()[8]);
                assert(t@[i as int + 9] == handle_marker()[9]);
                assert(t@[i as int + 10] == handle_marker()[10]);
                assert(t@[i as int + 11] == handle_marker()[11]);
                assert(t@[i as int + 12] == handle_marker()[12]);
            }
        }
    }
    hit
}

/// Extracts the channel handle from what a person pastes: a bare handle, or
/// a channel URL in any of its common shapes; the handle runs to the next
/// path delimiter or query.
#[verifier::rlimit(60)]
pub fn extract_channel_handle(url: &str) -> (r: Option<String>)
    ensures
        match r {
            Some(h) => channel_handle_of(url@) == Some(h@),
            None => channel_handle_of(url@) is None,
        },
{
    let cs = chars_of(url);
    let n = cs.len();
    let mut a: usize = 0;
    while a < n && strutil::char_is_whitespace(cs[a])
        invariant
            a <= n,
            n == cs@.len(),
            cs@ == url@,
            forall|j: int| 0 <= j < a ==> unicode_whitespace(#[trigger] url@[j]),
        decreases n - a,
    {
        a = a + 1;
    }
    let mut b: usize = n;
    while b > a && strutil::char_is_whitespace(cs[b - 1])
        invariant
            a <= b <= n,
            n == cs@.len(),
            cs@ == url@,
            forall|j: int| 0 <= j < a ==> unicode_whitespace(#[trigger] url@[j]),
            forall|j: int| b <= j < n ==> unicode_whitespace(#[trigger] url@[j]),
        decreases b,
    {
        b = b - 1;
    }
    let ghost tv = url@.subrange(a as int, b as int);
    proof {
        if a == n {
            lemma_trim_front_is_suffix(url@, a as int);
            lemma_trim_back_is_prefix(trim_front(url@), 0);
            assert(trim_front(url@) =~= Seq::<char>::empty());
            assert(trimmed(url@) =~= tv);
        } else {
            assert(!unicode_whitespace(url@[a as int]));
            lemma_trim_front_is_suffix(url@, a as int);
            assert(trim_front(url@) == url@.subrange(a as int, n as int));
            assert(b > a);
            assert(!unicode_whitespace(url@[b as int - 1]));
            lemma_trim_back_is_prefix(url@.subrange(a as int, n as int), b as int - a as int);
            assert(url@.subrange(a as int, n as int).subrange(0, b as int - a as int) =~= tv);
            assert(trimmed(url@) == tv);
        }
    }
    let mut t: Vec<char> = Vec::new();
    let mut k: usize = a;
    while k < b
        invariant
            a <= k <= b <= n,
            n == cs@.len(),
            cs@ == url@,
            t@ == url@.subrange(a as int, k as int),
        decreases b - k,
    {
        t.push(cs[k]);
        k = k + 1;
        proof {
            assert(t@ =~= url@.subrange(a as int, k as int));
        }
    }
    proof {
        assert(t@ =~= tv);
    }
    if t.len() > 0 && t[0] == '@' {
        return Some(strutil::string_from_chars(&t));
    }
    if t.len() < 13 {
        proof {
            assert forall|j: int| 0 <= j implies !marker_at(tv, j) by {}
            lemma_find_marker_none(tv, 0);
        }
        return None;
    }
    let mut m: Option<usize> = None;
    let mut i: usize = 0;
    let last_start = t.len() - 13;
    while i <= last_start && m.is_none()
        invariant
            t@.len() >= 13,
            last_start == t@.len() - 13,
            i <= last_start + 1,
            m is None ==> forall|j: int| 0 <= j < i ==> !marker_at(tv, j),
            m matches Some(p) ==> p + 1 == i && marker_at(tv, p as int) && (forall|j: int|
                0 <= j < p ==> !marker_at(tv, j)),
            t@ == tv,
        decreases t@.len() - i,
    {
        if marker_matches(&t, i) {
            m = Some(i);
        }
        i = i + 1;
    }
    let start = match m {
        Some(p) => {
            proof {
                lemma_find_marker_first(tv, 0, p as int);
            }
            p + 12
        },
        None => {
            proof {
                assert forall|j: int| 0 <= j implies !marker_at(tv, j) by {
                    if j + 13 <= tv.len() {
                        assert(!marker_at(tv, j));
                    }
                }
                lemma_find_marker_none(tv, 0);
            }
            return None;
        },
    };
    let mut e: usize = start;
    while e < t.len() && !(t[e] == '/' || t[e] == '?' || t[e] == '#')
        invariant
            start <= e <= t@.len(),
            t@ == tv,
            forall|j: int| start <= j < e ==> !handle_delim(#[trigger] tv[j]),
        decreases t@.len() - e,
    {
        e = e + 1;
    }
    proof {
        if e < t@.len() {
            lemma_find_delim_first(tv, start as int, e as int);
        } else {
            lemma_find_delim_first(tv, start as int, tv.len() as int);
        }
    }
    let mut h: Vec<char> = Vec::new();
    let mut k2: usize = start;
    while k2 < e
        invariant
            start <= k2 <= e <= t@.len(),
            t@ == tv,
            h@ == tv.subrange(start as int, k2 as int),
        decreases e - k2,
    {
        h.push(t[k2]);
        k2 = k2 + 1;
        proof {
            assert(h@ =~= tv.subrange(start as int, k2 as int));
        }
    }
    proof {
        assert(h@ =~= tv.subrange(start as int, e as int));
    }
    Some(strutil::string_from_chars(&h))
}

/// How long the caller waits before the given retry: one second before the
/// second attempt, doubling after.
pub fn backoff_delay_ms(attempt: u32) -> (r: u64)
    requires
        1 <= attempt <= 3,
    ensures
        attempt == 1 ==> r == 1000,
        attempt == 2 ==> r == 2000,
        attempt == 3 ==> r == 4000,
{
    if attempt == 1 {
        1000
    } else if attempt == 2 {
        2000
    } else {
        4000
    }
}

/// What the retry loop does next.
#[derive(Debug)]
pub enum RetryDecision {
    /// Wait the given milliseconds, then try again.
    RetryAfter(u64),
    /// Stop and surface the error.
    GiveUp(YouTubeChannelError),
}

/// Whether an error class may be retried: only upstream rate limiting and
/// upstream unavailability, never a terminal answer.
pub open spec fn retryable(e: &YouTubeChannelError) -> bool {
    match e {
        YouTubeChannelError::ApiError { status, message: _ } => *status == 429 || *status == 503,
        _ => false,
    }
}

/// Decides whether a failed attempt is retried: at most three attempts, with
/// delays of one, two then four seconds, and only for retryable errors.
/// After the attempts run out, rate limiting and unavailability surface as
/// their own distinct errors.
pub fn plan_retry(e: YouTubeChannelError, attempt: u32) -> (r: RetryDecision)
    requires
        1 <= attempt <= 3,
    ensures
        (retryable(&e) && attempt < 3) ==> (r matches RetryDecision::RetryAfter(d) && (attempt == 1
            ==> d == 1000) && (attempt == 2 ==> d == 2000)),
        !retryable(&e) ==> (r matches RetryDecision::GiveUp(e2) && e2 == e),
        (retryable(&e) && attempt >= 3) ==> (r matches RetryDecision::GiveUp(e2) && (
        e matches YouTubeChannelError::ApiError { status, message: _ } && (status == 429
            ==> e2 is RateLimitExceeded) && (status == 503 ==> e2 is ServiceUnavailable))),
{
    let is_retryable = match &e {
        YouTubeChannelError::ApiError { status, message: _ } => *status == 429 || *status == 503,
        _ => false,
    };
    if !is_retryable {
        return RetryDecision::GiveUp(e);
    }
    if attempt >= 3 {
        let gave = match &e {
            YouTubeChannelError::ApiError { status, message: _ } => {
                if *status == 429 {
                    YouTubeChannelError::RateLimitExceeded
                } else {
                    YouTubeChannelError::ServiceUnavailable
                }
            },
            _ => YouTubeChannelError::ServiceUnavailable,
        };
        return RetryDecision::GiveUp(gave);
    }
    RetryDecision::RetryAfter(backoff_delay_ms(attempt))
}

/// Classifies the upstream answer to a channel lookup: outside the success
/// range the status and body surface as an upstream error; a successful
/// answer must name a channel, else the channel does not exist.
pub fn classify_channel_response(
    http_status: u16,
    item: Option<(String, String)>,
    handle: String,
    body: &str,
) -> (r: Result<ChannelInfo, YouTubeChannelError>)
    ensures
        !(200 <= http_status < 300) ==> (r matches Err(e)
            && e matches YouTubeChannelError::ApiError { status, message } && status == http_status
            && message@ == body@),
        200 <= http_status < 300 ==> (match item {
            Some(it) => r matches Ok(info) && info.channel_id == it.0 && info.channel_name == it.1
                && info.channel_handle == Some(handle),
            None => r matches Err(e) && e is NotFound,
        }),
{
    if !(200 <= http_status && http_status < 300) {
        return Err(
            YouTubeChannelError::ApiError { status: http_status, message: body.to_owned() },
        );
    }
    match item {
        Some(it) => Ok(
            ChannelInfo {
                channel_id: it.0,
                channel_name: it.1,
                channel_handle: Some(handle),
            },
        ),
        None => Err(YouTubeChannelError::NotFound),
    }
}

} // verus!
