use membercard::references::{extract_comment_and_video_id, extract_comment_id};

#[test]
fn test_extract_comment_and_video_id_from_url() {
    let url = "https://www.youtube.com/watch?v=dQw4w9WgXcQ&lc=UgxABC123";
    let result = extract_comment_and_video_id(url);
    assert_eq!(
        result,
        Some(("UgxABC123".to_string(), Some("dQw4w9WgXcQ".to_string())))
    );
}

#[test]
fn test_extract_comment_id_from_url() {
    let url = "https://www.youtube.com/watch?v=dQw4w9WgXcQ&lc=UgxABC123";
    let result = extract_comment_id(url);
    assert_eq!(result, Some("UgxABC123".to_string()));
}

#[test]
fn test_extract_comment_id_direct() {
    let comment_id = "UgxDirect123";
    let result = extract_comment_id(comment_id);
    assert_eq!(result, Some("UgxDirect123".to_string()));
}

#[test]
fn test_extract_comment_and_video_id_direct() {
    let comment_id = "UgxDirect123";
    let result = extract_comment_and_video_id(comment_id);
    assert_eq!(result, Some(("UgxDirect123".to_string(), None)));
}

#[test]
fn test_extract_comment_id_invalid() {
    let invalid = "not a valid url or id!!!";
    let result = extract_comment_id(invalid);
    assert_eq!(result, None);
}

#[test]
fn test_extract_comment_id_url_without_comment() {
    let url = "https://www.youtube.com/watch?v=dQw4w9WgXcQ";
    let result = extract_comment_and_video_id(url);
    assert_eq!(result, None);
}

#[test]
fn test_extract_comment_id_later_parameter_wins() {
    let url = "https://www.youtube.com/watch?lc=first&lc=second&v=vid";
    let result = extract_comment_and_video_id(url);
    assert_eq!(
        result,
        Some(("second".to_string(), Some("vid".to_string())))
    );
}
