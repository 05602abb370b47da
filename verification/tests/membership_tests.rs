use membercard::membership::{
    check_reference_video, classify_comment_access, classify_video_access, evaluate_comment_proof,
    prepare_comment_reference, video_access_outcome, CommentVerificationError, FetchedComment,
    MembershipCheckError, ProofOutcome,
};

fn fetched_comment() -> FetchedComment {
    FetchedComment {
        id: "UgxABC123".to_string(),
        author_channel_id: "UCauthor".to_string(),
        author_display_name: "Test Member".to_string(),
        text_display: "great video".to_string(),
        published_at: "2024-01-15T10:00:00Z".to_string(),
    }
}

#[test]
fn test_check_video_access_classification() {
    assert_eq!(classify_video_access(200, Some(1), ""), Ok(true));
    assert_eq!(classify_video_access(200, Some(0), ""), Ok(false));
    assert_eq!(classify_video_access(403, None, ""), Ok(false));
    assert_eq!(classify_video_access(404, None, ""), Ok(false));
    assert_eq!(
        classify_video_access(401, None, ""),
        Err(MembershipCheckError::TokenExpired)
    );
    assert!(matches!(
        classify_video_access(500, None, "boom"),
        Err(MembershipCheckError::ApiError { status: 500, .. })
    ));
    assert!(matches!(
        classify_video_access(200, None, ""),
        Err(MembershipCheckError::ApiError { status: 500, .. })
    ));
}

#[test]
fn test_check_comment_access_classification() {
    assert_eq!(classify_comment_access(200, ""), Ok(true));
    assert_eq!(classify_comment_access(403, ""), Ok(false));
    // Not-found is a content/membership denial, a terminal negative like the
    // video probe's, never an upstream error.
    assert_eq!(classify_comment_access(404, ""), Ok(false));
    assert_eq!(
        classify_comment_access(401, ""),
        Err(MembershipCheckError::TokenExpired)
    );
    assert!(matches!(
        classify_comment_access(429, "slow down"),
        Err(MembershipCheckError::ApiError { status: 429, .. })
    ));
}

#[test]
fn test_evaluate_comment_proof_accepts_owned_comment() {
    let result =
        evaluate_comment_proof(Some(fetched_comment()), "dQw4w9WgXcQ", "UCauthor", None).unwrap();
    assert_eq!(result.comment_id, "UgxABC123");
    assert_eq!(result.author_channel_id, "UCauthor");
    assert_eq!(result.video_id, "dQw4w9WgXcQ");
    assert_eq!(result.text, "great video");
    // 2024-01-15T10:00:00Z in epoch seconds.
    assert_eq!(result.published_at, 1_705_312_800);
}

#[test]
fn test_evaluate_comment_proof_ownership_mismatch() {
    let result = evaluate_comment_proof(Some(fetched_comment()), "dQw4w9WgXcQ", "UCsomeoneelse", None);
    assert!(matches!(
        result,
        Err(CommentVerificationError::CommentOwnershipMismatch)
    ));
}

#[test]
fn test_evaluate_comment_proof_missing_comment() {
    let result = evaluate_comment_proof(None, "dQw4w9WgXcQ", "UCauthor", None);
    assert!(matches!(result, Err(CommentVerificationError::CommentNotFound)));
}

#[test]
fn test_evaluate_comment_proof_bad_timestamp() {
    let mut comment = fetched_comment();
    comment.published_at = "yesterday".to_string();
    let result = evaluate_comment_proof(Some(comment), "dQw4w9WgXcQ", "UCauthor", None);
    assert!(matches!(result, Err(CommentVerificationError::ParseError(_))));
}

#[test]
fn test_check_reference_video() {
    assert!(check_reference_video(&Some("dQw4w9WgXcQ".to_string()), "dQw4w9WgXcQ").is_ok());
    assert!(check_reference_video(&None, "dQw4w9WgXcQ").is_ok());
    assert_eq!(
        check_reference_video(&Some("otherVideo".to_string()), "dQw4w9WgXcQ"),
        Err(CommentVerificationError::WrongVideo)
    );
}

#[test]
fn test_video_access_outcome_classes() {
    let confirmed = video_access_outcome(
        Ok(true),
        "membership-access:v".to_string(),
        "v".to_string(),
        7,
    );
    assert!(matches!(confirmed, ProofOutcome::Confirmed(_)));

    let denied = video_access_outcome(Ok(false), "r".to_string(), "v".to_string(), 7);
    assert!(matches!(denied, ProofOutcome::NotAMember));

    let expired = video_access_outcome(
        Err(MembershipCheckError::TokenExpired),
        "r".to_string(),
        "v".to_string(),
        7,
    );
    assert!(matches!(expired, ProofOutcome::Indeterminate(_)));
}

#[test]
fn test_prepare_comment_reference() {
    let ok = prepare_comment_reference(
        "https://www.youtube.com/watch?v=dQw4w9WgXcQ&lc=UgxABC123",
        "dQw4w9WgXcQ",
    );
    assert_eq!(ok.unwrap(), "UgxABC123");

    let bare = prepare_comment_reference("UgxDirect123", "dQw4w9WgXcQ");
    assert_eq!(bare.unwrap(), "UgxDirect123");

    let wrong = prepare_comment_reference(
        "https://www.youtube.com/watch?v=otherVideo&lc=UgxABC123",
        "dQw4w9WgXcQ",
    );
    assert!(matches!(wrong, Err(CommentVerificationError::WrongVideo)));

    let junk = prepare_comment_reference("not a valid url!!!", "dQw4w9WgXcQ");
    assert!(matches!(
        junk,
        Err(CommentVerificationError::InvalidReference)
    ));
}

#[test]
fn test_evaluate_comment_proof_age_cutoff() {
    // The comment was published at 2024-01-15T10:00:00Z. With no cut-off,
    // any age passes; with one set, an older comment is rejected and a
    // newer one passes.
    let published = 1_705_312_800;
    let relaxed = evaluate_comment_proof(Some(fetched_comment()), "dQw4w9WgXcQ", "UCauthor", None);
    assert!(relaxed.is_ok());

    let gated_out = evaluate_comment_proof(
        Some(fetched_comment()),
        "dQw4w9WgXcQ",
        "UCauthor",
        Some(published + 1),
    );
    assert!(matches!(gated_out, Err(CommentVerificationError::CommentTooOld)));

    let gated_in = evaluate_comment_proof(
        Some(fetched_comment()),
        "dQw4w9WgXcQ",
        "UCauthor",
        Some(published),
    );
    assert!(gated_in.is_ok());
}
