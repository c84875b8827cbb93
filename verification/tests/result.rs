use wayland_client::request::RequestResult;

#[test]
fn expect_hands_out_what_was_sent() {
    let sent: RequestResult<u32> = RequestResult::Sent(7);
    assert!(sent.is_sent());
    assert_eq!(sent.expect("the request was sent"), 7);
    let text = RequestResult::Sent("surface".to_string());
    assert_eq!(text.expect("the request was sent"), "surface");
}

#[test]
fn a_dropped_request_was_not_sent() {
    let dropped: RequestResult<u32> = RequestResult::Destroyed;
    assert!(!dropped.is_sent());
    assert_eq!(dropped, RequestResult::Destroyed);
    assert_ne!(dropped, RequestResult::Sent(0));
}
