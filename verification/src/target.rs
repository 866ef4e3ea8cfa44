//! Fetch targets: the description of one HTTP request that a poller repeats,
//! and the fingerprint by which two descriptions count as the same source.

use vstd::prelude::*;
use vstd::string::*;

verus! {

/// The HTTP methods a subscription may ask for.
#[derive(Clone, Copy, Debug, PartialEq, Eq, Structural)]
pub enum Method {
    Get,
    Post,
    Put,
    Delete,
    Patch,
}

/// Why a request description cannot be turned into a request.
#[derive(Clone, Copy, Debug, PartialEq, Eq, Structural)]
pub enum TargetError {
    /// The method name is none of GET, POST, PUT, DELETE, PATCH.
    InvalidMethod,
    /// The URL does not parse.
    MalformedUrl,
    /// The header at this position has a name that is no HTTP token.
    InvalidHeaderName(usize),
    /// The header at this position has a value with a control character.
    InvalidHeaderValue(usize),
    /// The description asks for a signature that has not been applied yet.
    Unsigned,
}

/// The code of `c`, with the letters `A` to `Z` moved onto `a` to `z`.
pub open spec fn ascii_lower(c: char) -> u32 {
    if 65 <= c as u32 && c as u32 <= 90 {
        (c as u32 + 32) as u32
    } else {
        c as u32
    }
}

/// `name` spells `word` when ASCII letter case is ignored in `name`.
pub open spec fn spells(name: Seq<char>, word: Seq<char>) -> bool {
    &&& name.len() == word.len()
    &&& forall|i: int| 0 <= i < name.len() ==> ascii_lower(#[trigger] name[i]) == word[i] as u32
}

/// The method that `name` stands for, if any.
pub open spec fn method_named(name: Seq<char>) -> Option<Method> {
    if spells(name, seq!['g', 'e', 't']) {
        Some(Method::Get)
    } else if spells(name, seq!['p', 'o', 's', 't']) {
        Some(Method::Post)
    } else if spells(name, seq!['p', 'u', 't']) {
        Some(Method::Put)
    } else if spells(name, seq!['d', 'e', 'l', 'e', 't', 'e']) {
        Some(Method::Delete)
    } else if spells(name, seq!['p', 'a', 't', 'c', 'h']) {
        Some(Method::Patch)
    } else {
        None
    }
}

fn lower_code(c: char) -> (code: u32)
    ensures
        code == ascii_lower(c),
{
    let raw: u32 = c as u32;
    if 65 <= raw && raw <= 90 {
        raw + 32
    } else {
        raw
    }
}

fn spells_word(name: &str, word: &str) -> (same: bool)
    ensures
        same == spells(name@, word@),
{
    let n: usize = name.unicode_len();
    if n != word.unicode_len() {
        return false;
    }
    let mut i: usize = 0;
    while i < n
        invariant
            i <= n,
            n == name@.len(),
            n == word@.len(),
            forall|j: int| 0 <= j < i ==> ascii_lower(#[trigger] name@[j]) == word@[j] as u32,
        decreases n - i,
    {
        if lower_code(name.get_char(i)) != word.get_char(i) as u32 {
            return false;
        }
        i += 1;
    }
    true
}

/// Reads a method name, whatever its letter case.
pub fn deserialize_method(name: &str) -> (method: Result<Method, TargetError>)
    ensures
        method == match method_named(name@) {
            Some(m) => Ok::<Method, TargetError>(m),
            None => Err::<Method, TargetError>(TargetError::InvalidMethod),
        },
{
    proof {
        reveal_strlit("get");
        reveal_strlit("post");
        reveal_strlit("put");
        reveal_strlit("delete");
        reveal_strlit("patch");
        assert("get"@ =~= seq!['g', 'e', 't']);
        assert("post"@ =~= seq!['p', 'o', 's', 't']);
        assert("put"@ =~= seq!['p', 'u', 't']);
        assert("delete"@ =~= seq!['d', 'e', 'l', 'e', 't', 'e']);
        assert("patch"@ =~= seq!['p', 'a', 't', 'c', 'h']);
    }
    if spells_word(name, "get") {
        Ok(Method::Get)
    } else if spells_word(name, "post") {
        Ok(Method::Post)
    } else if spells_word(name, "put") {
        Ok(Method::Put)
    } else if spells_word(name, "delete") {
        Ok(Method::Delete)
    } else if spells_word(name, "patch") {
        Ok(Method::Patch)
    } else {
        Err(TargetError::InvalidMethod)
    }
}

/// One header line: its name and its value.
pub type Header = (String, String);

/// What a list of headers says, as plain text.
pub open spec fn header_views(headers: Seq<Header>) -> Seq<(Seq<char>, Seq<char>)> {
    headers.map_values(|h: Header| (h.0@, h.1@))
}

/// What an optional text says.
pub open spec fn text_view(text: Option<String>) -> Option<Seq<char>> {
    match text {
        Some(t) => Some(t@),
        None => None,
    }
}

/// The part of a fetch target by which it is found again: two targets with
/// the same fingerprint share one poller.
pub ghost struct Fingerprint {
    pub url: Seq<char>,
    pub method: Method,
    pub body: Option<Seq<char>>,
}

/// A fetch target as plain values.
pub ghost struct TargetView {
    pub url: Seq<char>,
    pub method: Method,
    pub body: Option<Seq<char>>,
    pub headers: Option<Seq<(Seq<char>, Seq<char>)>>,
    pub sign: Option<Seq<char>>,
    pub primary_only: bool,
}

impl TargetView {
    /// The fingerprint of this target: headers, signing and routing are left out.
    pub open spec fn fingerprint(self) -> Fingerprint {
        Fingerprint { url: self.url, method: self.method, body: self.body }
    }
}

/// An immutable description of one HTTP request.
#[derive(Debug)]
pub struct RequestPayload {
    pub url: String,
    pub method: Method,
    pub body: Option<String>,
    pub headers: Option<Vec<Header>>,
    /// The signer to apply before dispatch, if any.
    pub sign: Option<String>,
    /// Restricts dispatch to the primary egress address.
    pub primary_only: bool,
}

impl View for RequestPayload {
    type V = TargetView;

    open spec fn view(&self) -> TargetView {
        TargetView {
            url: self.url@,
            method: self.method,
            body: text_view(self.body),
            headers: match self.headers {
                Some(h) => Some(header_views(h@)),
                None => None,
            },
            sign: text_view(self.sign),
            primary_only: self.primary_only,
        }
    }
}

/// Copies an optional text.
pub fn copy_text(text: &Option<String>) -> (copy: Option<String>)
    ensures
        text_view(copy) == text_view(*text),
{
    match text {
        Some(t) => Some(t.clone()),
        None => None,
    }
}

/// Copies a list of headers.
pub fn copy_headers(headers: &Vec<Header>) -> (copy: Vec<Header>)
    ensures
        header_views(copy@) == header_views(headers@),
{
    let mut copy: Vec<Header> = Vec::new();
    let mut i: usize = 0;
    while i < headers.len()
        invariant
            i <= headers.len(),
            copy.len() == i,
            forall|j: int| 0 <= j < i ==> copy@[j].0@ == headers@[j].0@ && copy@[j].1@ == headers@[j].1@,
        decreases headers.len() - i,
    {
        let name = headers[i].0.clone();
        let value = headers[i].1.clone();
        copy.push((name, value));
        i += 1;
    }
    assert(header_views(copy@) =~= header_views(headers@));
    copy
}

impl RequestPayload {
    /// Describes a request from the fields of a subscription request. The
    /// method is given by name.
    pub fn new(
        url: String,
        method: &str,
        body: Option<String>,
        headers: Option<Vec<Header>>,
        sign: Option<String>,
        primary_only: bool,
    ) -> (target: Result<RequestPayload, TargetError>)
        ensures
            match method_named(method@) {
                Some(m) => target matches Ok(t) && t == (RequestPayload {
                    url,
                    method: m,
                    body,
                    headers,
                    sign,
                    primary_only,
                }),
                None => target matches Err(e) && e == TargetError::InvalidMethod,
            },
    {
        match deserialize_method(method) {
            Ok(m) => Ok(RequestPayload { url, method: m, body, headers, sign, primary_only }),
            Err(e) => Err(e),
        }
    }

    /// The fingerprint of this target.
    pub open spec fn fingerprint(&self) -> Fingerprint {
        self@.fingerprint()
    }

    /// Whether `self` and `other` ask for the same data source: headers,
    /// signing and routing hints do not count.
    pub fn same_target(&self, other: &RequestPayload) -> (same: bool)
        ensures
            same == (self.fingerprint() == other.fingerprint()),
    {
        let same_body = match (&self.body, &other.body) {
            (Some(a), Some(b)) => *a == *b,
            (None, None) => true,
            _ => false,
        };
        self.url == other.url && self.method == other.method && same_body
    }

    /// A copy of this target.
    pub fn duplicate(&self) -> (copy: RequestPayload)
        ensures
            copy@ == self@,
    {
        RequestPayload {
            url: self.url.clone(),
            method: self.method,
            body: copy_text(&self.body),
            headers: match &self.headers {
                Some(h) => Some(copy_headers(h)),
                None => None,
            },
            sign: copy_text(&self.sign),
            primary_only: self.primary_only,
        }
    }
}

impl PartialEq for RequestPayload {
    /// Two targets are equal when their fingerprints are.
    fn eq(&self, other: &RequestPayload) -> (same: bool) {
        self.same_target(other)
    }
}

impl vstd::std_specs::cmp::PartialEqSpecImpl for RequestPayload {
    open spec fn obeys_eq_spec() -> bool {
        true
    }

    open spec fn eq_spec(&self, other: &RequestPayload) -> bool {
        self.fingerprint() == other.fingerprint()
    }
}

impl Eq for RequestPayload {

}

} // verus!
