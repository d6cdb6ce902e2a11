use screensaver_bridge::backend::describe_reason;
use screensaver_bridge::backend::LockRequest;

#[test]
fn the_reason_joins_name_and_reason_with_one_space() {
    assert_eq!(describe_reason("app1", "idle"), "app1 idle");
    assert_eq!(describe_reason("Video Player", "playing a film"), "Video Player playing a film");
    assert_eq!(describe_reason("", ""), " ");
    assert_eq!(describe_reason("app", ""), "app ");
    assert_eq!(describe_reason("", "why"), " why");
}

#[test]
fn the_lock_request_blocks_idling() {
    assert_eq!(
        LockRequest::idle_block("screensaver-bridge", &describe_reason("app2", "x")),
        LockRequest {
            what: "idle".to_string(),
            who: "screensaver-bridge".to_string(),
            why: "app2 x".to_string(),
            mode: "block".to_string(),
        }
    );
}
