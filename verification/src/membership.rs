//! The membership proof checker: decides from what the upstream platform
//! answered whether a person currently qualifies as a member. This is the
//! trust boundary between "user claims membership" and "system believes it".
//! The network fetch happens outside; every decision on the answer is here.
use vstd::prelude::*;

use crate::cards::dup_string;
use crate::strutil;
use vstd::string::StringExecFns;

verus! {

#[derive(Debug, Clone, PartialEq, Eq)]
pub enum MembershipCheckError {
    ApiError { status: u16, message: String },
    TokenExpired,
    MembershipExpired,
}

/// Classifies the upstream answer to a members-only video metadata fetch.
/// An OK answer with a nonempty item list means membership; forbidden or
/// not-found means no membership; unauthorized means the token expired and
/// the caller must refresh and retry, never conclude non-membership. The
/// item count is absent when the answer body could not be read.
pub fn classify_video_access(http_status: u16, items_count: Option<u64>, body: &str) -> (r: Result<
    bool,
    MembershipCheckError,
>)
    ensures
        http_status == 200 ==> (match items_count {
            Some(n) => r == Ok::<bool, MembershipCheckError>(n > 0),
            None => r matches Err(e) && e matches MembershipCheckError::ApiError {
                status: s,
                message: _,
            } && s == 500,
        }),
        http_status == 403 || http_status == 404 ==> r == Ok::<bool, MembershipCheckError>(false),
        http_status == 401 ==> (r matches Err(e) && e is TokenExpired),
        !(http_status == 200 || http_status == 403 || http_status == 404 || http_status == 401)
            ==> (r matches Err(e) && e matches MembershipCheckError::ApiError {
            status: s,
            message: m,
        } && s == http_status && m@ == body@),
{
    if http_status == 200 {
        match items_count {
            Some(n) => Ok(n > 0),
            None => Err(
                MembershipCheckError::ApiError {
                    status: 500,
                    message: String::from_str("Failed to parse response"),
                },
            ),
        }
    } else if http_status == 403 || http_status == 404 {
        Ok(false)
    } else if http_status == 401 {
        Err(MembershipCheckError::TokenExpired)
    } else {
        Err(MembershipCheckError::ApiError { status: http_status, message: body.to_owned() })
    }
}

/// Classifies the upstream answer to a comment-thread access probe, the
/// fallback when no members-only video is configured. As with the video
/// probe, forbidden and not-found are content/membership denials — terminal
/// negatives, never retried — and only unauthorized asks for a refresh.
pub fn classify_comment_access(http_status: u16, body: &str) -> (r: Result<
    bool,
    MembershipCheckError,
>)
    ensures
        http_status == 200 ==> r == Ok::<bool, MembershipCheckError>(true),
        http_status == 403 || http_status == 404 ==> r == Ok::<bool, MembershipCheckError>(false),
        http_status == 401 ==> (r matches Err(e) && e is TokenExpired),
        !(http_status == 200 || http_status == 403 || http_status == 404 || http_status == 401)
            ==> (r matches Err(e) && e matches MembershipCheckError::ApiError {
            status: s,
            message: m,
        } && s == http_status && m@ == body@),
{
    if http_status == 200 {
        Ok(true)
    } else if http_status == 403 || http_status == 404 {
        Ok(false)
    } else if http_status == 401 {
        Err(MembershipCheckError::TokenExpired)
    } else {
        Err(MembershipCheckError::ApiError { status: http_status, message: body.to_owned() })
    }
}

#[derive(Debug, Clone, PartialEq, Eq)]
pub enum CommentVerificationError {
    CommentNotFound,
    CommentOwnershipMismatch,
    WrongVideo,
    CommentTooOld,
    InvalidReference,
    ApiError(String),
    ParseError(String),
}

/// A comment as the upstream edge hands it in: plain fields read from the
/// comment-lookup answer.
#[derive(Debug)]
pub struct FetchedComment {
    pub id: String,
    pub author_channel_id: String,
    pub author_display_name: String,
    pub text_display: String,
    pub published_at: String,
}

/// Evidence from a verified comment.
#[derive(Debug)]
pub struct CommentVerificationResult {
    pub comment_id: String,
    pub author_channel_id: String,
    pub author_display_name: String,
    pub video_id: String,
    pub published_at: i64,
    pub text: String,
}

/// What parsing an RFC 3339 timestamp yields, as seconds since the epoch;
/// fixed by the text alone.
pub uninterp spec fn rfc3339_epoch(s: Seq<char>) -> Option<i64>;

/// Relies on chrono's DateTime::parse_from_rfc3339 and timestamp: accepts
/// exactly RFC 3339 text and yields its instant in epoch seconds.
#[verifier::external_body]
fn parse_rfc3339(s: &str) -> (r: Option<i64>)
    ensures
        r == rfc3339_epoch(s@),
{
    chrono::DateTime::parse_from_rfc3339(s).ok().map(|d| d.timestamp())
}

/// Whether a publication instant passes the configurable age cut-off: with
/// none set every instant passes; with one set, the comment must not predate
/// it. Whether to set one is a policy choice, not a fixed rule.
pub open spec fn passes_age_cutoff(published_at: i64, earliest_published_at: Option<i64>) -> bool {
    match earliest_published_at {
        Some(earliest) => published_at >= earliest,
        None => true,
    }
}

/// Decides the comment proof from the fetched comment: the comment must
/// exist, belong to the authenticated member, and — when an age cut-off is
/// configured — not predate it; with none set any comment that passes the
/// ownership check is accepted whatever its age. Returns the comment's
/// publication instant and text as evidence.
pub fn evaluate_comment_proof(
    comment: Option<FetchedComment>,
    expected_video_id: &str,
    expected_author_channel_id: &str,
    earliest_published_at: Option<i64>,
) -> (r: Result<CommentVerificationResult, CommentVerificationError>)
    ensures
        comment is None <==> (r matches Err(e) && e is CommentNotFound),
        (comment matches Some(c) && c.author_channel_id@ != expected_author_channel_id@) <==> (
        r matches Err(e) && e is CommentOwnershipMismatch),
        (comment matches Some(c) && c.author_channel_id@ == expected_author_channel_id@
            && rfc3339_epoch(c.published_at@) is None) <==> (r matches Err(e)
            && e is ParseError),
        (comment matches Some(c) && c.author_channel_id@ == expected_author_channel_id@
            && (rfc3339_epoch(c.published_at@) matches Some(t) && !passes_age_cutoff(
            t,
            earliest_published_at,
        ))) <==> (r matches Err(e) && e is CommentTooOld),
        r matches Ok(v) ==> comment matches Some(c) && c.author_channel_id@
            == expected_author_channel_id@ && rfc3339_epoch(c.published_at@) == Some(
            v.published_at,
        ) && passes_age_cutoff(v.published_at, earliest_published_at) && v.comment_id@ == c.id@
            && v.author_channel_id@ == c.author_channel_id@ && v.author_display_name@
            == c.author_display_name@ && v.video_id@ == expected_video_id@ && v.text@
            == c.text_display@,
        r is Ok <==> (comment matches Some(c) && c.author_channel_id@
            == expected_author_channel_id@ && (rfc3339_epoch(c.published_at@) matches Some(t)
            && passes_age_cutoff(t, earliest_published_at))),
{
    let c = match comment {
        Some(c) => c,
        None => {
            return Err(CommentVerificationError::CommentNotFound);
        },
    };
    if !strutil::chars_eq(c.author_channel_id.as_str(), expected_author_channel_id) {
        return Err(CommentVerificationError::CommentOwnershipMismatch);
    }
    let published_at = match parse_rfc3339(c.published_at.as_str()) {
        Some(t) => t,
        None => {
            return Err(
                CommentVerificationError::ParseError(String::from_str("invalid timestamp")),
            );
        },
    };
    match earliest_published_at {
        Some(earliest) => {
            if published_at < earliest {
                return Err(CommentVerificationError::CommentTooOld);
            }
        },
        None => {},
    }
    Ok(
        CommentVerificationResult {
            comment_id: c.id,
            author_channel_id: c.author_channel_id,
            author_display_name: c.author_display_name,
            video_id: expected_video_id.to_owned(),
            published_at,
            text: c.text_display,
        },
    )
}

/// Prepares the comment proof from what the member submitted: extracts the
/// comment reference, and rejects the submission when it is neither a bare
/// identifier nor a comment URL, or when its URL names a video other than
/// the issuer's configured verification target. What comes back is the
/// comment identifier to fetch.
pub fn prepare_comment_reference(link_or_id: &str, expected_video_id: &str) -> (r: Result<
    String,
    CommentVerificationError,
>)
    ensures
        match crate::references::comment_reference_of(link_or_id@) {
            None => r matches Err(e) && e is InvalidReference,
            Some(p) => match p.1 {
                Some(v) => if v == expected_video_id@ {
                    r matches Ok(cid) && cid@ == p.0
                } else {
                    r matches Err(e) && e is WrongVideo
                },
                None => r matches Ok(cid) && cid@ == p.0,
            },
        },
{
    let extracted = match crate::references::extract_comment_and_video_id(link_or_id) {
        Some(p) => p,
        None => {
            return Err(CommentVerificationError::InvalidReference);
        },
    };
    match check_reference_video(&extracted.1, expected_video_id) {
        Ok(_) => Ok(extracted.0),
        Err(e) => Err(e),
    }
}

/// Rejects a comment link naming a video other than the issuer's configured
/// verification target. A link that names no video passes.
pub fn check_reference_video(extracted_video: &Option<String>, expected_video_id: &str) -> (r:
    Result<(), CommentVerificationError>)
    ensures
        match r {
            Ok(_) => match extracted_video {
                Some(v) => v@ == expected_video_id@,
                None => true,
            },
            Err(e) => e is WrongVideo && (extracted_video matches Some(v) && v@
                != expected_video_id@),
        },
{
    match extracted_video {
        Some(v) => {
            if strutil::chars_eq(v.as_str(), expected_video_id) {
                Ok(())
            } else {
                Err(CommentVerificationError::WrongVideo)
            }
        },
        None => Ok(()),
    }
}

/// Why a proof attempt came back without an answer either way. Only these
/// may ever be retried.
#[derive(Debug, Clone, PartialEq, Eq)]
pub enum IndeterminateReason {
    TokenExpired,
    UpstreamError(String),
}

/// Evidence carried by a confirmed proof: what confirms it, on which video,
/// and when.
#[derive(Debug)]
pub struct ProofEvidence {
    pub proof_reference: String,
    pub video_id: String,
    pub confirmed_at: i64,
}

/// The three outcome classes every proof strategy surfaces. `NotAMember` is
/// a terminal, trustworthy negative; only `Indeterminate` may be retried.
#[derive(Debug)]
pub enum ProofOutcome {
    Confirmed(ProofEvidence),
    NotAMember,
    Indeterminate(IndeterminateReason),
}

impl ProofEvidence {
    /// A field-for-field copy of the evidence.
    pub fn duplicate(&self) -> (r: ProofEvidence)
        ensures
            r == *self,
    {
        ProofEvidence {
            proof_reference: dup_string(&self.proof_reference),
            video_id: dup_string(&self.video_id),
            confirmed_at: self.confirmed_at,
        }
    }
}

/// Folds a classified video-access answer into the three outcome classes.
pub fn video_access_outcome(
    access: Result<bool, MembershipCheckError>,
    proof_reference: String,
    video_id: String,
    now: i64,
) -> (r: ProofOutcome)
    ensures
        access == Ok::<bool, MembershipCheckError>(true) <==> (r matches ProofOutcome::Confirmed(
            ev,
        ) && ev.proof_reference == proof_reference && ev.video_id == video_id && ev.confirmed_at
            == now),
        access == Ok::<bool, MembershipCheckError>(false) <==> r is NotAMember,
        (access matches Err(e) && e is TokenExpired) <==> (r matches ProofOutcome::Indeterminate(
            why,
        ) && why is TokenExpired),
        (access matches Err(e) && !(e is TokenExpired)) ==> (r
             matches ProofOutcome::Indeterminate(why) && why is UpstreamError),
{
    match access {
        Ok(true) => ProofOutcome::Confirmed(
            ProofEvidence { proof_reference, video_id, confirmed_at: now },
        ),
        Ok(false) => ProofOutcome::NotAMember,
        Err(MembershipCheckError::TokenExpired) => ProofOutcome::Indeterminate(
            IndeterminateReason::TokenExpired,
        ),
        Err(MembershipCheckError::ApiError { status: _, message }) => ProofOutcome::Indeterminate(
            IndeterminateReason::UpstreamError(message),
        ),
        Err(MembershipCheckError::MembershipExpired) => ProofOutcome::Indeterminate(
            IndeterminateReason::UpstreamError(String::from_str("membership expired")),
        ),
    }
}

} // verus!
