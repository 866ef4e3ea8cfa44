use grasshopper::fanout::Received;
use grasshopper::fetcher::{decimal_text, split_commas, Completion, FetchOutcome, Fetcher, TickPlan};
use grasshopper::target::{Method, RequestPayload, TargetError};

fn target(url: &str) -> RequestPayload {
    RequestPayload::new(url.to_string(), "GET", None, None, None, false).unwrap()
}

fn ok_response(body: &str) -> FetchOutcome {
    FetchOutcome::Response { status: 200, headers: Vec::new(), content: body.as_bytes().to_vec() }
}

fn client_of(plan: TickPlan) -> usize {
    match plan {
        TickPlan::Dispatch { client, .. } => client,
        other => panic!("expected a dispatch, got {:?}", other),
    }
}

#[test]
fn commas_split_a_list() {
    assert_eq!(split_commas("10.0.0.1,10.0.0.2"), vec!["10.0.0.1", "10.0.0.2"]);
    assert_eq!(split_commas("one"), vec!["one"]);
    assert_eq!(split_commas(""), vec![""]);
    assert_eq!(split_commas(","), vec!["", ""]);
    assert_eq!(split_commas("a,,b,"), vec!["a", "", "b", ""]);
    assert_eq!(split_commas("\u{e9},\u{fc}"), vec!["\u{e9}", "\u{fc}"]);
}

#[test]
fn numbers_are_written_in_decimal() {
    assert_eq!(decimal_text(0), b"0".to_vec());
    assert_eq!(decimal_text(7), b"7".to_vec());
    assert_eq!(decimal_text(10), b"10".to_vec());
    assert_eq!(decimal_text(1700000000123), b"1700000000123".to_vec());
    assert_eq!(decimal_text(u64::MAX), b"18446744073709551615".to_vec());
}

#[test]
fn a_new_poller_has_one_default_client() {
    let f = Fetcher::new(target("http://a.test/"), 100, None);
    assert_eq!(f.egress(), &vec![None]);
    assert_eq!(f.period_ms(), 100);
    assert_eq!(f.payload().url, "http://a.test/");
    assert!(!f.is_cancelled());
    assert_eq!(f.produced(), 0);
}

#[test]
fn configured_addresses_give_a_client_each() {
    let f = Fetcher::new(target("http://a.test/"), 100, Some("10.0.0.1,10.0.0.2,10.0.0.3"));
    assert_eq!(
        f.egress(),
        &vec![Some("10.0.0.1".to_string()), Some("10.0.0.2".to_string()), Some("10.0.0.3".to_string())]
    );
}

#[test]
fn primary_only_ignores_the_configured_addresses() {
    let mut t = target("http://a.test/");
    t.primary_only = true;
    let f = Fetcher::new(t, 100, Some("10.0.0.1,10.0.0.2"));
    assert_eq!(f.egress(), &vec![None]);
}

#[test]
fn clients_take_turns() {
    let mut f = Fetcher::new(target("http://a.test/"), 100, Some("a,b,c"));
    let mut turns = Vec::new();
    for _ in 0..7 {
        turns.push(client_of(f.tick()));
        assert_eq!(f.complete(FetchOutcome::TransportError), Completion::Skipped);
    }
    assert_eq!(turns, vec![1, 2, 0, 1, 2, 0, 1]);
}

#[test]
fn a_tick_dispatches_the_built_request() {
    let mut t = RequestPayload::new("http://a.test/p".to_string(), "PUT", None, None, None, false).unwrap();
    t.headers = Some(vec![("X-A".to_string(), "1".to_string())]);
    let mut f = Fetcher::new(t, 100, None);
    match f.tick() {
        TickPlan::Dispatch { client, request } => {
            assert_eq!(client, 0);
            assert_eq!(request.method, Method::Put);
            assert_eq!(request.url, "http://a.test/p");
            assert_eq!(
                request.headers,
                vec![("Content-Length".to_string(), "0".to_string()), ("X-A".to_string(), "1".to_string())]
            );
        },
        other => panic!("expected a dispatch, got {:?}", other),
    }
}

#[test]
fn a_response_is_published_to_every_subscriber() {
    let mut f = Fetcher::new(target("http://a.test/"), 100, None);
    let mut first = f.subscribe();
    let mut second = f.subscribe();
    client_of(f.tick());
    let outcome = FetchOutcome::Response {
        status: 404,
        headers: vec![("k".to_string(), "v".to_string())],
        content: b"gone".to_vec(),
    };
    assert_eq!(f.complete(outcome), Completion::Published);
    assert_eq!(f.produced(), 1);
    for cursor in [&mut first, &mut second] {
        match f.next(cursor) {
            Received::Item(r) => {
                assert_eq!(r.url, "http://a.test/");
                assert_eq!(r.status, 404);
                assert!(r.error);
                assert_eq!(r.content, b"gone".to_vec());
                assert_eq!(r.headers, vec![("k".to_string(), "v".to_string())]);
            },
            other => panic!("expected an item, got {:?}", other),
        }
        assert!(matches!(f.next(cursor), Received::Empty));
    }
}

#[test]
fn a_malformed_target_skips_the_tick_and_the_timer_goes_on() {
    let mut f = Fetcher::new(target("no url"), 100, None);
    for _ in 0..3 {
        match f.tick() {
            TickPlan::Skip(e) => assert_eq!(e, TargetError::MalformedUrl),
            other => panic!("expected a skip, got {:?}", other),
        }
    }
    assert_eq!(f.produced(), 0);
    assert_eq!(f.complete(ok_response("x")), Completion::Ignored);
    assert_eq!(f.produced(), 0);
}

#[test]
fn a_transport_failure_is_followed_by_the_next_tick() {
    let mut f = Fetcher::new(target("http://unreachable.test/"), 100, None);
    let mut reader = f.subscribe();
    client_of(f.tick());
    assert_eq!(f.complete(FetchOutcome::TransportError), Completion::Skipped);
    assert!(matches!(f.next(&mut reader), Received::Empty));
    client_of(f.tick());
    assert_eq!(f.complete(ok_response("up")), Completion::Published);
    assert!(matches!(f.next(&mut reader), Received::Item(_)));
}

#[test]
fn an_unreadable_body_gives_no_result() {
    let mut f = Fetcher::new(target("http://a.test/"), 100, None);
    client_of(f.tick());
    assert_eq!(f.complete(FetchOutcome::Unreadable), Completion::Skipped);
    assert_eq!(f.produced(), 0);
    client_of(f.tick());
}

#[test]
fn no_second_request_goes_out_while_one_is_in_flight() {
    let mut f = Fetcher::new(target("http://a.test/"), 100, None);
    client_of(f.tick());
    assert!(matches!(f.tick(), TickPlan::Busy));
    assert!(matches!(f.tick(), TickPlan::Busy));
    assert_eq!(f.complete(ok_response("1")), Completion::Published);
    assert_eq!(f.complete(ok_response("2")), Completion::Ignored);
    assert_eq!(f.produced(), 1);
}

#[test]
fn a_cancelled_poller_stops_at_the_next_tick() {
    let mut f = Fetcher::new(target("http://a.test/"), 100, None);
    client_of(f.tick());
    assert_eq!(f.complete(ok_response("1")), Completion::Published);
    f.cancel();
    assert!(f.is_cancelled());
    for _ in 0..3 {
        assert!(matches!(f.tick(), TickPlan::Stop));
    }
    assert_eq!(f.produced(), 1);
}

#[test]
fn a_cancelled_poller_abandons_the_request_in_flight() {
    let mut f = Fetcher::new(target("http://a.test/"), 100, None);
    client_of(f.tick());
    f.cancel();
    assert_eq!(f.complete(ok_response("late")), Completion::Stop);
    assert_eq!(f.produced(), 0);
    assert!(matches!(f.tick(), TickPlan::Stop));
}

#[test]
fn the_clock_host_is_answered_locally() {
    let mut f = Fetcher::new(target("http://millis.local/"), 100, Some("a,b"));
    let mut reader = f.subscribe();
    assert!(matches!(f.tick(), TickPlan::Clock));
    assert_eq!(f.complete(FetchOutcome::Clock { millis: 1234 }), Completion::Published);
    match f.next(&mut reader) {
        Received::Item(r) => {
            assert_eq!(r.url, "http://millis.local/");
            assert_eq!(r.content, b"1234".to_vec());
            assert_eq!(r.status, 200);
            assert!(!r.error);
        },
        other => panic!("expected an item, got {:?}", other),
    }
    assert!(matches!(f.tick(), TickPlan::Clock));
}

#[test]
fn a_target_to_sign_asks_for_its_signer_on_every_tick() {
    let mut t = target("http://a.test/");
    t.sign = Some("exchange".to_string());
    let mut f = Fetcher::new(t, 100, None);
    match f.tick() {
        TickPlan::Sign(name) => assert_eq!(name, "exchange"),
        other => panic!("expected a request to sign, got {:?}", other),
    }
    let mut signed = target("http://a.test/?sig=1");
    signed.headers = Some(vec![("X-Sig".to_string(), "abc".to_string())]);
    match f.tick_signed(&signed) {
        TickPlan::Dispatch { client, request } => {
            assert_eq!(client, 0);
            assert_eq!(request.url, "http://a.test/?sig=1");
            assert_eq!(request.headers, vec![("X-Sig".to_string(), "abc".to_string())]);
        },
        other => panic!("expected a dispatch, got {:?}", other),
    }
    assert_eq!(f.complete(ok_response("x")), Completion::Published);
    assert!(matches!(f.tick(), TickPlan::Sign(_)));
}

#[test]
fn a_signer_that_returns_an_unsigned_target_skips_the_tick() {
    let mut t = target("http://a.test/");
    t.sign = Some("exchange".to_string());
    let mut f = Fetcher::new(t.duplicate(), 100, None);
    match f.tick_signed(&t) {
        TickPlan::Skip(e) => assert_eq!(e, TargetError::Unsigned),
        other => panic!("expected a skip, got {:?}", other),
    }
}
