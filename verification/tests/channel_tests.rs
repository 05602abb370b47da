use membercard::channel::{
    backoff_delay_ms, classify_channel_response, extract_channel_handle, plan_retry,
    RetryDecision, YouTubeChannelError,
};

#[test]
fn test_extract_channel_handle() {
    assert_eq!(
        extract_channel_handle("https://www.youtube.com/@Dokibird"),
        Some("@Dokibird".to_string())
    );
    assert_eq!(
        extract_channel_handle("https://youtube.com/@Dokibird"),
        Some("@Dokibird".to_string())
    );
    assert_eq!(
        extract_channel_handle("@Dokibird"),
        Some("@Dokibird".to_string())
    );
    assert_eq!(
        extract_channel_handle("https://www.youtube.com/@Dokibird/videos"),
        Some("@Dokibird".to_string())
    );
    assert_eq!(
        extract_channel_handle("https://www.youtube.com/@Dokibird?feature=shared"),
        Some("@Dokibird".to_string())
    );
    assert_eq!(extract_channel_handle("not a valid url"), None);
}

#[test]
fn test_extract_channel_handle_trims_whitespace() {
    assert_eq!(
        extract_channel_handle("  @Handle  "),
        Some("@Handle".to_string())
    );
}

#[test]
fn test_backoff_schedule() {
    assert_eq!(backoff_delay_ms(1), 1000);
    assert_eq!(backoff_delay_ms(2), 2000);
    assert_eq!(backoff_delay_ms(3), 4000);
}

#[test]
fn test_plan_retry_retries_rate_limit() {
    let e = YouTubeChannelError::ApiError {
        status: 429,
        message: "slow down".to_string(),
    };
    assert!(matches!(
        plan_retry(e, 1),
        RetryDecision::RetryAfter(1000)
    ));
}

#[test]
fn test_plan_retry_gives_up_after_three_attempts() {
    let rate_limited = YouTubeChannelError::ApiError {
        status: 429,
        message: "slow down".to_string(),
    };
    assert!(matches!(
        plan_retry(rate_limited, 3),
        RetryDecision::GiveUp(YouTubeChannelError::RateLimitExceeded)
    ));

    let unavailable = YouTubeChannelError::ApiError {
        status: 503,
        message: "down".to_string(),
    };
    assert!(matches!(
        plan_retry(unavailable, 3),
        RetryDecision::GiveUp(YouTubeChannelError::ServiceUnavailable)
    ));
}

#[test]
fn test_plan_retry_never_retries_terminal_answers() {
    assert!(matches!(
        plan_retry(YouTubeChannelError::NotFound, 1),
        RetryDecision::GiveUp(YouTubeChannelError::NotFound)
    ));
    let hard = YouTubeChannelError::ApiError {
        status: 400,
        message: "bad".to_string(),
    };
    assert!(matches!(
        plan_retry(hard, 1),
        RetryDecision::GiveUp(YouTubeChannelError::ApiError { status: 400, .. })
    ));
}

#[test]
fn test_classify_channel_response() {
    let found = classify_channel_response(
        200,
        Some(("UC123".to_string(), "Test Channel".to_string())),
        "@handle".to_string(),
        "",
    )
    .unwrap();
    assert_eq!(found.channel_id, "UC123");
    assert_eq!(found.channel_name, "Test Channel");
    assert_eq!(found.channel_handle, Some("@handle".to_string()));

    assert!(matches!(
        classify_channel_response(200, None, "@handle".to_string(), ""),
        Err(YouTubeChannelError::NotFound)
    ));
    assert!(matches!(
        classify_channel_response(503, None, "@handle".to_string(), "down"),
        Err(YouTubeChannelError::ApiError { status: 503, .. })
    ));
}
