use grasshopper::alert::{alert_due, call_form, emergency, inline_xml, notice, AlertKind, CallSettings};

fn settings() -> CallSettings {
    CallSettings {
        sid: "AC123".to_string(),
        target: "+15550001".to_string(),
        number: "+15550002".to_string(),
        webhook: "hook.test:8282".to_string(),
    }
}

#[test]
fn the_document_says_the_message_with_spaces() {
    assert_eq!(
        inline_xml("price-fell-below-10"),
        "\n<Response>\n<Say voice=\"woman\">price fell below 10</Say>\n</Response>\n    "
    );
    assert_eq!(inline_xml(""), "\n<Response>\n<Say voice=\"woman\"></Say>\n</Response>\n    ");
    assert_eq!(inline_xml("--"), "\n<Response>\n<Say voice=\"woman\">  </Say>\n</Response>\n    ");
    assert_eq!(
        inline_xml("no dashes \u{e9}"),
        "\n<Response>\n<Say voice=\"woman\">no dashes \u{e9}</Say>\n</Response>\n    "
    );
}

#[test]
fn a_first_call_is_always_due() {
    assert!(alert_due(AlertKind::Notice, None));
    assert!(alert_due(AlertKind::Emergency, None));
}

#[test]
fn notices_are_two_minutes_apart() {
    assert!(!alert_due(AlertKind::Notice, Some(0)));
    assert!(!alert_due(AlertKind::Notice, Some(119)));
    assert!(alert_due(AlertKind::Notice, Some(120)));
    assert!(alert_due(AlertKind::Notice, Some(u64::MAX)));
}

#[test]
fn emergencies_are_half_a_minute_apart() {
    assert!(!alert_due(AlertKind::Emergency, Some(29)));
    assert!(alert_due(AlertKind::Emergency, Some(30)));
    assert!(alert_due(AlertKind::Emergency, Some(119)));
}

#[test]
fn the_call_names_the_account_and_the_message() {
    let form = call_form(&settings(), "price fell below 10");
    assert_eq!(form.endpoint, "https://api.twilio.com/2010-04-01/Accounts/AC123/Calls.json");
    assert_eq!(form.url, "http://hook.test:8282/price-fell-below-10");
    assert_eq!(form.from, "+15550002");
    assert_eq!(form.to, "+15550001");
}

#[test]
fn a_notice_is_placed_when_due() {
    let placed = notice(&settings(), "a b", Some(120)).unwrap();
    assert_eq!(placed.url, "http://hook.test:8282/a-b");
    assert!(notice(&settings(), "a b", Some(60)).is_none());
    assert!(notice(&settings(), "a b", None).is_some());
}

#[test]
fn an_emergency_is_placed_when_due() {
    let placed = emergency(&settings(), " x ", Some(60)).unwrap();
    assert_eq!(placed.url, "http://hook.test:8282/-x-");
    assert!(emergency(&settings(), "x", Some(29)).is_none());
}
