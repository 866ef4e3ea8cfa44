use grasshopper::response::{
    process_payload, send_response_event, signal_event, status_is_success, Event, Outcome,
    ResponsePayload, TokenCounter,
};

#[test]
fn success_is_the_2xx_class() {
    assert!(!status_is_success(0));
    assert!(!status_is_success(199));
    assert!(status_is_success(200));
    assert!(status_is_success(204));
    assert!(status_is_success(299));
    assert!(!status_is_success(300));
    assert!(!status_is_success(404));
    assert!(!status_is_success(500));
    assert!(!status_is_success(u16::MAX));
}

#[test]
fn a_response_keeps_what_it_was_made_from() {
    let headers = vec![("content-type".to_string(), "text/plain".to_string())];
    let r = ResponsePayload::new("http://a.test/", 200, headers.clone(), b"hello".to_vec());
    assert_eq!(r.url, "http://a.test/");
    assert_eq!(r.content, b"hello".to_vec());
    assert_eq!(r.status, 200);
    assert_eq!(r.headers, headers);
    assert!(!r.error);
    assert!(!r.restart);
    assert!(!r.terminate);
    assert_eq!(r.outcome(), Some(Outcome::Success));
}

#[test]
fn a_response_outside_2xx_is_an_http_error() {
    let r = ResponsePayload::new("http://a.test/", 503, Vec::new(), Vec::new());
    assert!(r.error);
    assert_eq!(r.outcome(), Some(Outcome::HttpError));
}

#[test]
fn the_error_result_is_a_transport_error() {
    let r = ResponsePayload::new_error();
    assert!(r.error && !r.restart && !r.terminate);
    assert_eq!(r.status, 0);
    assert!(r.url.is_empty() && r.content.is_empty() && r.headers.is_empty());
    assert_eq!(r.outcome(), Some(Outcome::TransportError));
}

#[test]
fn signals_have_no_outcome() {
    let t = ResponsePayload::new_terminator();
    assert!(!t.error && !t.restart && t.terminate);
    assert_eq!(t.outcome(), None);
    let r = ResponsePayload::new_restart();
    assert!(r.error && r.restart && !r.terminate);
    assert_eq!(r.outcome(), None);
}

#[test]
fn duplicate_copies_a_result() {
    let r = ResponsePayload::new("u", 201, vec![("a".to_string(), "b".to_string())], vec![1, 2, 3]);
    let c = r.duplicate();
    assert_eq!(c.url, r.url);
    assert_eq!(c.content, vec![1, 2, 3]);
    assert_eq!(c.status, 201);
    assert_eq!(c.headers, r.headers);
    assert_eq!((c.error, c.restart, c.terminate), (false, false, false));
}

#[test]
fn events_carry_their_kind_payload_and_token() {
    let e = Event::new("custom", ResponsePayload::new_error(), Some(7));
    assert_eq!(e.kind, "custom");
    assert_eq!(e.token, Some(7));
    assert!(e.get_response_payload().error);
}

#[test]
fn a_delivered_result_becomes_a_fetcher_event() {
    let e = process_payload(Some(ResponsePayload::new("u", 200, Vec::new(), b"x".to_vec())));
    assert_eq!(e.kind, "fetcher");
    assert_eq!(e.token, None);
    assert_eq!(e.response_payload.content, b"x".to_vec());
    assert!(!e.response_payload.terminate);
}

#[test]
fn an_ended_stream_becomes_the_termination_signal() {
    let e = process_payload(None);
    assert_eq!(e.kind, "fetcher");
    assert!(e.response_payload.terminate);
    assert!(!e.response_payload.error);
}

#[test]
fn process_signals_become_signal_events() {
    let stop = signal_event(false);
    assert_eq!(stop.kind, "signal");
    assert!(stop.response_payload.terminate && !stop.response_payload.restart);
    assert_eq!(stop.token, None);
    let again = signal_event(true);
    assert_eq!(again.kind, "signal");
    assert!(again.response_payload.restart && again.response_payload.error);
    assert!(!again.response_payload.terminate);
}

#[test]
fn the_answer_to_a_sent_request_carries_its_token() {
    let ok = send_response_event(Some(ResponsePayload::new("u", 200, Vec::new(), Vec::new())), 3);
    assert_eq!(ok.kind, "send_response");
    assert_eq!(ok.token, Some(3));
    assert!(!ok.response_payload.error);
    let failed = send_response_event(None, 4);
    assert_eq!(failed.token, Some(4));
    assert!(failed.response_payload.error);
    assert_eq!(failed.response_payload.status, 0);
}

#[test]
fn tokens_count_up_from_one() {
    let mut c = TokenCounter::new();
    assert_eq!(c.issue(), Some(1));
    assert_eq!(c.issue(), Some(2));
    assert_eq!(c.issue(), Some(3));
}
