//! Voice alerts: when a call is due, and what it says.
//!
//! Placing the call is outside. Here are the rules: how often a call may be
//! placed, where it goes, and the document that the telephony service
//! fetches to learn what to say.

use vstd::prelude::*;
use vstd::string::*;

verus! {

/// `s` with every `from` turned into `to`.
pub open spec fn swapped(s: Seq<char>, from: char, to: char) -> Seq<char> {
    s.map_values(|c: char| if c == from { to } else { c })
}

/// Turns every `from` in `s` into the one character of `to`.
fn swap_chars(s: &str, from: char, to: &str) -> (out: String)
    requires
        to@.len() == 1,
    ensures
        out@ == swapped(s@, from, to@[0]),
{
    let n: usize = s.unicode_len();
    let mut out = String::new();
    let mut start: usize = 0;
    let mut i: usize = 0;
    assert(out@ =~= swapped(s@.subrange(0, 0), from, to@[0]));
    while i < n
        invariant
            start <= i <= n,
            n == s@.len(),
            to@.len() == 1,
            out@ == swapped(s@.subrange(0, start as int), from, to@[0]),
            forall|j: int| start <= j < i ==> s@[j] != from,
        decreases n - i,
    {
        if s.get_char(i) == from {
            let ghost before = out@;
            out.append(s.substring_char(start, i));
            out.append(to);
            assert(to@ =~= seq![to@[0]]);
            assert(out@ =~= swapped(s@.subrange(0, i + 1), from, to@[0]));
            start = i + 1;
        }
        i += 1;
    }
    out.append(s.substring_char(start, n));
    assert(out@ =~= swapped(s@, from, to@[0]));
    out
}

/// The document that makes the service say `say`: the dashes of `say`
/// become spaces again.
pub open spec fn inline_xml_of(say: Seq<char>) -> Seq<char> {
    "\n<Response>\n<Say voice=\"woman\">"@ + swapped(say, '-', ' ') + "</Say>\n</Response>\n    "@
}

/// Writes the document that makes the service say `say`.
pub fn inline_xml(say: &str) -> (xml: String)
    ensures
        xml@ == inline_xml_of(say@),
{
    proof {
        reveal_strlit(" ");
    }
    let spoken = swap_chars(say, '-', " ");
    let mut xml = String::from_str("\n<Response>\n<Say voice=\"woman\">");
    xml.append(spoken.as_str());
    xml.append("</Say>\n</Response>\n    ");
    xml
}

/// The two kinds of alert.
#[derive(Clone, Copy, Debug, PartialEq, Eq, Structural)]
pub enum AlertKind {
    Notice,
    Emergency,
}

/// The least time between two calls of a kind, in seconds.
pub open spec fn quiet_secs(kind: AlertKind) -> u64 {
    match kind {
        AlertKind::Notice => 120,
        AlertKind::Emergency => 30,
    }
}

/// A call is due when none was placed yet, or when the last one of its
/// kind is at least the quiet time ago.
pub open spec fn alert_due_spec(kind: AlertKind, since_last_secs: Option<u64>) -> bool {
    match since_last_secs {
        Some(secs) => secs >= quiet_secs(kind),
        None => true,
    }
}

/// Whether a call of this kind is due; `since_last_secs` is the time since
/// the last one, in whole seconds, if there was one.
pub fn alert_due(kind: AlertKind, since_last_secs: Option<u64>) -> (due: bool)
    ensures
        due == alert_due_spec(kind, since_last_secs),
{
    let quiet: u64 = match kind {
        AlertKind::Notice => 120,
        AlertKind::Emergency => 30,
    };
    match since_last_secs {
        Some(secs) => secs >= quiet,
        None => true,
    }
}

/// The account and the numbers that calls are placed with.
#[derive(Debug)]
pub struct CallSettings {
    /// The account's key; it is also the user of the request.
    pub sid: String,
    /// The number that is called.
    pub target: String,
    /// The number that calls.
    pub number: String,
    /// The address under which the service fetches what to say.
    pub webhook: String,
}

/// One call to place, as the form of the request to the service.
#[derive(Debug)]
pub struct CallForm {
    /// Where the request goes.
    pub endpoint: String,
    /// The field `Url`: where the service fetches what to say.
    pub url: String,
    /// The field `From`.
    pub from: String,
    /// The field `To`.
    pub to: String,
}

/// The address of the service's call list for an account.
pub open spec fn endpoint_of(sid: Seq<char>) -> Seq<char> {
    "https://api.twilio.com/2010-04-01/Accounts/"@ + sid + "/Calls.json"@
}

/// The address that says `message`: the message's spaces become dashes.
pub open spec fn callback_of(webhook: Seq<char>, message: Seq<char>) -> Seq<char> {
    "http://"@ + webhook + "/"@ + swapped(message, ' ', '-')
}

/// The form of the call that says `message`.
pub fn call_form(settings: &CallSettings, message: &str) -> (form: CallForm)
    ensures
        form.endpoint@ == endpoint_of(settings.sid@),
        form.url@ == callback_of(settings.webhook@, message@),
        form.from@ == settings.number@,
        form.to@ == settings.target@,
{
    proof {
        reveal_strlit("-");
    }
    let slug = swap_chars(message, ' ', "-");
    let mut endpoint = String::from_str("https://api.twilio.com/2010-04-01/Accounts/");
    endpoint.append(settings.sid.as_str());
    endpoint.append("/Calls.json");
    let mut url = String::from_str("http://");
    url.append(settings.webhook.as_str());
    url.append("/");
    url.append(slug.as_str());
    CallForm { endpoint, url, from: settings.number.clone(), to: settings.target.clone() }
}

/// The call to place for a notice, if one is due.
pub fn notice(settings: &CallSettings, message: &str, since_last_secs: Option<u64>) -> (call: Option<CallForm>)
    ensures
        call is Some <==> alert_due_spec(AlertKind::Notice, since_last_secs),
        call matches Some(form) ==> {
            &&& form.endpoint@ == endpoint_of(settings.sid@)
            &&& form.url@ == callback_of(settings.webhook@, message@)
            &&& form.from@ == settings.number@
            &&& form.to@ == settings.target@
        },
{
    if alert_due(AlertKind::Notice, since_last_secs) {
        Some(call_form(settings, message))
    } else {
        None
    }
}

/// The call to place for an emergency, if one is due.
pub fn emergency(settings: &CallSettings, message: &str, since_last_secs: Option<u64>) -> (call: Option<
    CallForm,
>)
    ensures
        call is Some <==> alert_due_spec(AlertKind::Emergency, since_last_secs),
        call matches Some(form) ==> {
            &&& form.endpoint@ == endpoint_of(settings.sid@)
            &&& form.url@ == callback_of(settings.webhook@, message@)
            &&& form.from@ == settings.number@
            &&& form.to@ == settings.target@
        },
{
    if alert_due(AlertKind::Emergency, since_last_secs) {
        Some(call_form(settings, message))
    } else {
        None
    }
}

} // verus!
