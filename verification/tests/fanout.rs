use grasshopper::fanout::{Cursor, Fanout, Received, CHANNEL_CAPACITY};
use grasshopper::response::ResponsePayload;

fn numbered(n: u32) -> ResponsePayload {
    ResponsePayload::new("http://a.test/", 200, Vec::new(), n.to_string().into_bytes())
}

fn number_of(r: Received) -> u32 {
    match r {
        Received::Item(p) => String::from_utf8(p.content).unwrap().parse().unwrap(),
        other => panic!("expected an item, got {:?}", other),
    }
}

#[test]
fn the_capacity_is_thirty_two() {
    assert_eq!(CHANNEL_CAPACITY, 32);
}

#[test]
fn an_empty_channel_gives_nothing() {
    let ch = Fanout::new();
    let mut c = ch.subscribe();
    assert!(matches!(ch.recv(&mut c), Received::Empty));
    assert_eq!(c, Cursor { next: 0 });
    assert_eq!(ch.produced(), 0);
    assert_eq!(ch.retained(), 0);
}

#[test]
fn every_subscriber_gets_every_result_in_order() {
    let mut ch = Fanout::new();
    let mut first = ch.subscribe();
    let mut second = ch.subscribe();
    for n in 0..CHANNEL_CAPACITY as u32 {
        ch.publish(numbered(n));
    }
    for n in 0..CHANNEL_CAPACITY as u32 {
        assert_eq!(number_of(ch.recv(&mut first)), n);
    }
    assert!(matches!(ch.recv(&mut first), Received::Empty));
    for n in 0..CHANNEL_CAPACITY as u32 {
        assert_eq!(number_of(ch.recv(&mut second)), n);
    }
    assert!(matches!(ch.recv(&mut second), Received::Empty));
}

#[test]
fn interleaved_reads_keep_the_order() {
    let mut ch = Fanout::new();
    let mut c = ch.subscribe();
    let mut seen = Vec::new();
    for n in 0..200u32 {
        ch.publish(numbered(n));
        if n % 3 == 2 {
            loop {
                match ch.recv(&mut c) {
                    Received::Item(p) => seen.push(String::from_utf8(p.content).unwrap()),
                    Received::Empty => break,
                    Received::Lagged(_) => panic!("a consumer that keeps up never lags"),
                }
            }
        }
    }
    let expected: Vec<String> = (0..198u32).map(|n| n.to_string()).collect();
    assert_eq!(seen, expected);
}

#[test]
fn a_late_subscriber_starts_at_the_present() {
    let mut ch = Fanout::new();
    ch.publish(numbered(0));
    ch.publish(numbered(1));
    let mut c = ch.subscribe();
    assert_eq!(c.next, 2);
    assert!(matches!(ch.recv(&mut c), Received::Empty));
    ch.publish(numbered(2));
    assert_eq!(number_of(ch.recv(&mut c)), 2);
}

#[test]
fn a_lagging_subscriber_loses_the_oldest_results() {
    let mut ch = Fanout::new();
    let mut c = ch.subscribe();
    for n in 0..40u32 {
        ch.publish(numbered(n));
    }
    assert_eq!(ch.produced(), 40);
    assert_eq!(ch.retained(), 32);
    match ch.recv(&mut c) {
        Received::Lagged(lost) => assert_eq!(lost, 8),
        other => panic!("expected a lag, got {:?}", other),
    }
    assert_eq!(c.next, 8);
    for n in 8..40u32 {
        assert_eq!(number_of(ch.recv(&mut c)), n);
    }
    assert!(matches!(ch.recv(&mut c), Received::Empty));
}

#[test]
fn exactly_the_capacity_behind_is_not_lagging() {
    let mut ch = Fanout::new();
    let mut c = ch.subscribe();
    for n in 0..32u32 {
        ch.publish(numbered(n));
    }
    assert_eq!(number_of(ch.recv(&mut c)), 0);
    ch.publish(numbered(32));
    ch.publish(numbered(33));
    match ch.recv(&mut c) {
        Received::Lagged(lost) => assert_eq!(lost, 1),
        other => panic!("expected a lag, got {:?}", other),
    }
    assert_eq!(number_of(ch.recv(&mut c)), 2);
}

#[test]
fn a_cursor_from_the_future_reads_nothing() {
    let mut ch = Fanout::new();
    ch.publish(numbered(0));
    let mut c = Cursor { next: 9 };
    assert!(matches!(ch.recv(&mut c), Received::Empty));
    assert_eq!(c.next, 9);
}

#[test]
fn the_producer_does_not_wait_for_a_silent_subscriber() {
    let mut ch = Fanout::new();
    let _silent = ch.subscribe();
    for n in 0..1000u32 {
        ch.publish(numbered(n));
        assert_eq!(ch.produced(), u64::from(n) + 1);
    }
    assert_eq!(ch.retained(), 32);
}
