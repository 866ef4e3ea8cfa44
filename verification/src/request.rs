//! Turning a fetch target into the request that goes out on one tick.

use crate::target::{copy_text, header_views, text_view, Header, Method, RequestPayload, TargetError, TargetView};
use vstd::prelude::*;
use vstd::string::*;
use vstd::utf8::encode_utf8;

verus! {

/// The parts of a parsed URL that the engine reads.
#[derive(Debug)]
pub struct TargetUrl {
    /// The URL as it is sent.
    pub href: String,
    /// The host it names, if it names one.
    pub host: Option<String>,
}

/// What URL parsing makes of `url`: nothing where it is rejected, else the
/// URL as it is sent and the host it names.
pub uninterp spec fn url_parts(url: Seq<char>) -> Option<(Seq<char>, Option<Seq<char>>)>;

/// Parses `url` with `reqwest::Url::parse` and reads the parsed URL's text
/// (`as_str`) and host (`host_str`). The outcome depends on `url` alone and is
/// named `url_parts`; nothing else is claimed of it.
#[verifier::external_body]
fn parse_url_parts(url: &str) -> (parsed: Option<TargetUrl>)
    ensures
        parts_view(parsed) == url_parts(url@),
{
    match reqwest::Url::parse(url) {
        Ok(u) => Some(TargetUrl { href: String::from(u.as_str()), host: u.host_str().map(String::from) }),
        Err(_) => None,
    }
}

/// The bytes that may stand in a header name.
pub open spec fn is_header_name_byte(b: u8) -> bool {
    ||| 33 <= b <= 39
    ||| b == 42
    ||| b == 43
    ||| b == 45
    ||| b == 46
    ||| 48 <= b <= 57
    ||| 65 <= b <= 90
    ||| 94 <= b <= 122
    ||| b == 124
    ||| b == 126
}

/// A header name is accepted when it is not empty, shorter than 64 KiB and
/// made of name bytes only.
pub open spec fn valid_header_name(name: Seq<u8>) -> bool {
    &&& 1 <= name.len() <= 65535
    &&& forall|i: int| 0 <= i < name.len() ==> is_header_name_byte(#[trigger] name[i])
}

/// The bytes that may stand in a header value: no control character but the tab.
pub open spec fn is_header_value_byte(b: u8) -> bool {
    (b >= 32 && b != 127) || b == 9
}

/// A header value is accepted when all its bytes are value bytes.
pub open spec fn valid_header_value(value: Seq<u8>) -> bool {
    forall|i: int| 0 <= i < value.len() ==> is_header_value_byte(#[trigger] value[i])
}

/// Asks `reqwest::header::HeaderName::from_bytes` whether it accepts `name`.
/// It rejects the empty name, a name of more than 65535 bytes and a name with
/// a byte outside its table of name characters, and accepts every other.
#[verifier::external_body]
fn header_name_accepted(name: &str) -> (ok: bool)
    ensures
        ok == valid_header_name(name.spec_bytes()),
{
    reqwest::header::HeaderName::from_bytes(name.as_bytes()).is_ok()
}

/// Asks `reqwest::header::HeaderValue::from_str` whether it accepts `value`.
/// It rejects a value with a byte below 32 other than the tab, or the byte
/// 127, and accepts every other.
#[verifier::external_body]
fn header_value_accepted(value: &str) -> (ok: bool)
    ensures
        ok == valid_header_value(value.spec_bytes()),
{
    reqwest::header::HeaderValue::from_str(value).is_ok()
}

/// What is wrong with the header at `index`, if anything. The name is looked
/// at before the value.
pub open spec fn header_fault(index: int, header: (Seq<char>, Seq<char>)) -> Option<TargetError> {
    if !valid_header_name(encode_utf8(header.0)) {
        Some(TargetError::InvalidHeaderName(index as usize))
    } else if !valid_header_value(encode_utf8(header.1)) {
        Some(TargetError::InvalidHeaderValue(index as usize))
    } else {
        None
    }
}

/// No header before position `end` has a fault.
pub open spec fn headers_clean(headers: Seq<(Seq<char>, Seq<char>)>, end: int) -> bool {
    forall|i: int| 0 <= i < end ==> (#[trigger] header_fault(i, headers[i])) is None
}

/// The headers a target asks for, none where it names none.
pub open spec fn asked_headers(target: TargetView) -> Seq<(Seq<char>, Seq<char>)> {
    match target.headers {
        Some(h) => h,
        None => Seq::empty(),
    }
}

/// A request without a body states its length, unless it is a GET.
pub open spec fn states_empty_body(target: TargetView) -> bool {
    target.body is None && target.method != Method::Get
}

/// The header that states an empty body.
pub open spec fn empty_body_header() -> (Seq<char>, Seq<char>) {
    (
        seq!['C', 'o', 'n', 't', 'e', 'n', 't', '-', 'L', 'e', 'n', 'g', 't', 'h'],
        seq!['0'],
    )
}

/// An outbound request as plain values.
pub ghost struct RequestView {
    pub method: Method,
    pub url: Seq<char>,
    pub host: Option<Seq<char>>,
    pub body: Option<Seq<char>>,
    pub headers: Seq<(Seq<char>, Seq<char>)>,
}

/// The request that goes out for one tick. `headers` are set in order: a
/// later one replaces an earlier one of the same name.
#[derive(Debug)]
pub struct OutboundRequest {
    pub method: Method,
    pub url: String,
    pub host: Option<String>,
    pub body: Option<String>,
    pub headers: Vec<Header>,
}

impl View for OutboundRequest {
    type V = RequestView;

    open spec fn view(&self) -> RequestView {
        RequestView {
            method: self.method,
            url: self.url@,
            host: text_view(self.host),
            body: text_view(self.body),
            headers: header_views(self.headers@),
        }
    }
}

/// The request built from `target` once its URL has been parsed into `parts`.
pub open spec fn request_for(target: TargetView, parts: (Seq<char>, Option<Seq<char>>)) -> RequestView {
    RequestView {
        method: target.method,
        url: parts.0,
        host: parts.1,
        body: target.body,
        headers: if states_empty_body(target) {
            seq![empty_body_header()] + asked_headers(target)
        } else {
            asked_headers(target)
        },
    }
}

/// The parsed URL as plain values.
pub open spec fn parts_view(parsed: Option<TargetUrl>) -> Option<(Seq<char>, Option<Seq<char>>)> {
    match parsed {
        Some(u) => Some((u.href@, text_view(u.host))),
        None => None,
    }
}

/// What building a request gives, for each way it can end: `target` is the
/// description, `parts` what parsing its URL gave, `built` the result.
pub open spec fn build_outcome(
    target: TargetView,
    parts: Option<(Seq<char>, Option<Seq<char>>)>,
    built: Result<RequestView, TargetError>,
) -> bool {
    let headers = asked_headers(target);
    match built {
        Err(TargetError::Unsigned) => target.sign is Some,
        Err(TargetError::MalformedUrl) => target.sign is None && parts is None,
        Err(TargetError::InvalidHeaderName(i)) => {
            &&& target.sign is None
            &&& parts is Some
            &&& i < headers.len()
            &&& headers_clean(headers, i as int)
            &&& header_fault(i as int, headers[i as int]) == Some(TargetError::InvalidHeaderName(i))
        },
        Err(TargetError::InvalidHeaderValue(i)) => {
            &&& target.sign is None
            &&& parts is Some
            &&& i < headers.len()
            &&& headers_clean(headers, i as int)
            &&& header_fault(i as int, headers[i as int]) == Some(TargetError::InvalidHeaderValue(i))
        },
        Err(TargetError::InvalidMethod) => false,
        Ok(request) => {
            &&& target.sign is None
            &&& parts matches Some(p)
            &&& headers_clean(headers, headers.len() as int)
            &&& request == request_for(target, p)
        },
    }
}

/// Whether a request can be built from `target`, given what parsing its URL gave.
pub open spec fn buildable(target: TargetView, parts: Option<(Seq<char>, Option<Seq<char>>)>) -> bool {
    &&& target.sign is None
    &&& parts is Some
    &&& headers_clean(asked_headers(target), asked_headers(target).len() as int)
}

/// The result of a build as plain values.
pub open spec fn built_view(built: Result<OutboundRequest, TargetError>) -> Result<RequestView, TargetError> {
    match built {
        Ok(request) => Ok(request@),
        Err(e) => Err(e),
    }
}

/// Builds the outbound request from the target and from what parsing its
/// URL gave. A target that still asks for a signature is refused first, then
/// a URL that did not parse; the headers are checked in order and the first
/// fault ends the attempt.
pub fn assemble_request(target: &RequestPayload, parsed: Option<TargetUrl>) -> (built: Result<
    OutboundRequest,
    TargetError,
>)
    ensures
        build_outcome(target@, parts_view(parsed), built_view(built)),
        built is Ok <==> buildable(target@, parts_view(parsed)),
{
    match &target.sign {
        Some(_) => {
            return Err(TargetError::Unsigned);
        },
        None => {},
    }
    let url = match parsed {
        Some(u) => u,
        None => {
            return Err(TargetError::MalformedUrl);
        },
    };
    let mut headers: Vec<Header> = Vec::new();
    let ghost asked = asked_headers(target@);
    let ghost lead: Seq<(Seq<char>, Seq<char>)> = if states_empty_body(target@) {
        seq![empty_body_header()]
    } else {
        Seq::empty()
    };
    let no_body = match &target.body {
        Some(_) => false,
        None => true,
    };
    if no_body && target.method != Method::Get {
        let name = String::from_str("Content-Length");
        let value = String::from_str("0");
        proof {
            reveal_strlit("Content-Length");
            reveal_strlit("0");
            assert(name@ =~= empty_body_header().0);
            assert(value@ =~= empty_body_header().1);
        }
        headers.push((name, value));
    }
    assert(header_views(headers@) =~= lead);
    match &target.headers {
        Some(list) => {
            assert(asked == header_views(list@));
            let mut i: usize = 0;
            while i < list.len()
                invariant
                    i <= list.len(),
                    asked == header_views(list@),
                    asked == asked_headers(target@),
                    target@.sign is None,
                    parts_view(parsed) is Some,
                    headers_clean(asked, i as int),
                    header_views(headers@) == lead + asked.subrange(0, i as int),
                decreases list.len() - i,
            {
                assert(asked[i as int] == (list@[i as int].0@, list@[i as int].1@));
                let name_ok = header_name_accepted(list[i].0.as_str());
                if !name_ok {
                    return Err(TargetError::InvalidHeaderName(i));
                }
                let value_ok = header_value_accepted(list[i].1.as_str());
                if !value_ok {
                    return Err(TargetError::InvalidHeaderValue(i));
                }
                let name = list[i].0.clone();
                let value = list[i].1.clone();
                let ghost before = header_views(headers@);
                headers.push((name, value));
                assert(header_views(headers@) =~= before.push(asked[i as int]));
                assert(before.push(asked[i as int]) =~= lead + asked.subrange(0, i + 1));
                i += 1;
            }
            assert(asked.subrange(0, i as int) =~= asked);
        },
        None => {
            assert(lead + asked =~= lead);
        },
    }
    Ok(
        OutboundRequest {
            method: target.method,
            url: url.href,
            host: url.host,
            body: copy_text(&target.body),
            headers,
        },
    )
}

/// Builds the request that goes out for `target`: parses its URL and
/// assembles the request from the outcome.
pub fn build_request(target: &RequestPayload) -> (built: Result<OutboundRequest, TargetError>)
    ensures
        build_outcome(target@, url_parts(target@.url), built_view(built)),
        built is Ok <==> buildable(target@, url_parts(target@.url)),
{
    assemble_request(target, parse_url_parts(target.url.as_str()))
}

} // verus!
