//! The HTTP step.

use vstd::prelude::*;
use crate::actions::exec::optional_text;
use crate::actions::{extract, extract_optional, extract_optional_spec, extract_spec};
use crate::error::{agrees, Error, ErrorKind, Failure};
use crate::reader::Files;
use crate::text::{to_uppercase, uppercase};
use crate::value::{entries_model, field, object_field, text_field, Json, Value};

verus! {

/// The body of a request.
#[derive(Debug, PartialEq, Eq)]
pub enum Body {
    /// A template, resolved when the request is made.
    Template(String),
    /// Bytes, sent as they are.
    Binary(Vec<u8>),
}

/// The model of a `Body`.
pub enum BodyView {
    Template(Seq<char>),
    Binary(Seq<u8>),
}

impl View for Body {
    type V = BodyView;

    open spec fn view(&self) -> BodyView {
        match self {
            Body::Template(t) => BodyView::Template(t@),
            Body::Binary(b) => BodyView::Binary(b@),
        }
    }
}

impl Clone for Body {
    fn clone(&self) -> (r: Body)
        ensures
            r@ == self@,
    {
        match self {
            Body::Template(t) => Body::Template(t.clone()),
            Body::Binary(b) => Body::Binary(b.clone()),
        }
    }
}

/// The model of an optional body.
pub open spec fn optional_body(b: Option<Body>) -> Option<BodyView> {
    match b {
        Some(body) => Some(body@),
        None => None,
    }
}

/// The model of an optional value.
pub open spec fn optional_value(v: Option<Value>) -> Option<Json> {
    match v {
        Some(value) => Some(value@),
        None => None,
    }
}

/// The model of a list of pairs of strings.
pub open spec fn pairs(v: Seq<(String, String)>) -> Seq<(Seq<char>, Seq<char>)> {
    Seq::new(v.len(), |i: int| (v[i].0@, v[i].1@))
}

/// Whether `c` is a hexadecimal digit, in either case.
pub open spec fn is_hex_digit(c: char) -> bool {
    '0' <= c <= '9' || 'a' <= c <= 'f' || 'A' <= c <= 'F'
}

/// The number that the hexadecimal digit `c` stands for.
pub open spec fn hex_value(c: char) -> int {
    if '0' <= c <= '9' {
        c as u8 - '0' as u8
    } else if 'a' <= c <= 'f' {
        c as u8 - 'a' as u8 + 10
    } else {
        c as u8 - 'A' as u8 + 10
    }
}

/// Whether `s` is an even number of hexadecimal digits.
pub open spec fn is_hex(s: Seq<char>) -> bool {
    s.len() % 2 == 0 && forall|i: int| 0 <= i < s.len() ==> is_hex_digit(#[trigger] s[i])
}

/// The bytes that the hexadecimal digits `s` stand for, two digits a byte, the
/// high digit first.
pub open spec fn hex_bytes(s: Seq<char>) -> Seq<u8> {
    Seq::new(
        s.len() / 2,
        |i: int| (16 * hex_value(s[2 * i]) + hex_value(s[2 * i + 1])) as u8,
    )
}

/// `hex::decode`: the bytes that a string of hexadecimal digits stands for. It
/// fails exactly where the string has an odd length or holds a character that
/// is no hexadecimal digit.
#[verifier::external_body]
fn hex_decode(s: &str) -> (r: Option<Vec<u8>>)
    ensures
        match r {
            Some(bytes) => is_hex(s@) && bytes@ == hex_bytes(s@),
            None => !is_hex(s@),
        },
{
    hex::decode(s).ok()
}

/// An HTTP call: its address, method, headers and body, which may hold
/// templates, and what it was expanded from.
#[derive(Debug, PartialEq, Eq)]
pub struct Request {
    pub name: String,
    pub url: String,
    pub method: String,
    /// In the order of the plan.
    pub headers: Vec<(String, String)>,
    pub body: Option<Body>,
    pub with_item: Option<Value>,
    pub index: Option<u32>,
    pub assign: Option<String>,
}

/// The model of a `Request`.
pub struct RequestView {
    pub name: Seq<char>,
    pub url: Seq<char>,
    pub method: Seq<char>,
    pub headers: Seq<(Seq<char>, Seq<char>)>,
    pub body: Option<BodyView>,
    pub with_item: Option<Json>,
    pub index: Option<u32>,
    pub assign: Option<Seq<char>>,
}

impl View for Request {
    type V = RequestView;

    open spec fn view(&self) -> RequestView {
        RequestView {
            name: self.name@,
            url: self.url@,
            method: self.method@,
            headers: pairs(self.headers@),
            body: optional_body(self.body),
            with_item: optional_value(self.with_item),
            index: self.index,
            assign: optional_text(self.assign),
        }
    }
}

/// The method of the request that `request` describes: the property `method`
/// in upper case, or `GET` where there is none.
pub open spec fn method_spec(request: Json) -> Result<Seq<char>, Failure> {
    match extract_optional_spec(request, "method"@) {
        Err(f) => Err(f),
        Ok(Some(m)) => Ok(uppercase(m)),
        Ok(None) => Ok("GET"@),
    }
}

/// Whether a request with the method `method` sends a body.
pub open spec fn sends_body(method: Seq<char>) -> bool {
    method == "POST"@ || method == "PATCH"@ || method == "PUT"@
}

/// The body of the request named `name` that `request` describes: none unless
/// the method sends one; then the property `body` where it is a string, as a
/// template; else the bytes of the file that `body.file` names; else the bytes
/// that the digits `body.hex` stand for.
pub open spec fn body_spec(request: Json, name: Seq<char>, method: Seq<char>, files: Files)
    -> Result<Option<BodyView>, Failure> {
    if !sends_body(method) {
        Ok(None)
    } else {
        match field(request, "body"@) {
            Some(Json::Text(t)) => Ok(Some(BodyView::Template(t))),
            Some(b) => match text_field(b, "file"@) {
                Some(path) => match files.bytes_at(path) {
                    Some(bytes) => Ok(Some(BodyView::Binary(bytes))),
                    None => Err((ErrorKind::MissingBytes, path)),
                },
                None => match text_field(b, "hex"@) {
                    Some(h) => if is_hex(h) {
                        Ok(Some(BodyView::Binary(hex_bytes(h))))
                    } else {
                        Err((ErrorKind::InvalidHex, h))
                    },
                    None => Err((ErrorKind::InvalidBody, name)),
                },
            },
            None => Err((ErrorKind::InvalidBody, name)),
        }
    }
}

/// The first `n` headers of a mapping, as names and values; a value that is no
/// string is refused.
pub open spec fn headers_upto(entries: Seq<(Seq<char>, Json)>, n: nat) -> Result<
    Seq<(Seq<char>, Seq<char>)>,
    Failure,
>
    decreases n,
{
    if n == 0 || n > entries.len() {
        Ok(Seq::empty())
    } else {
        match headers_upto(entries, (n - 1) as nat) {
            Err(f) => Err(f),
            Ok(head) => match entries[n - 1].1 {
                Json::Text(v) => Ok(head.push((entries[n - 1].0, v))),
                _ => Err((ErrorKind::HeaderNotString, entries[n - 1].0)),
            },
        }
    }
}

/// The headers of the request that `request` describes.
pub open spec fn headers_spec(request: Json) -> Result<Seq<(Seq<char>, Seq<char>)>, Failure> {
    match object_field(request, "headers"@) {
        Some(entries) => headers_upto(entries, entries.len()),
        None => Ok(Seq::empty()),
    }
}

/// The request that the entry `item` describes, for the item `with_item` at
/// position `index` of what the entry is expanded over.
pub open spec fn request_spec(
    item: Json,
    with_item: Option<Json>,
    index: Option<u32>,
    files: Files,
) -> Result<RequestView, Failure> {
    match extract_spec(item, "name"@) {
        Err(f) => Err(f),
        Ok(name) => match field(item, "request"@) {
            None => Err((ErrorKind::MissingField, "request"@)),
            Some(request) => match extract_spec(request, "url"@) {
                Err(f) => Err(f),
                Ok(url) => match extract_optional_spec(item, "assign"@) {
                    Err(f) => Err(f),
                    Ok(assign) => match method_spec(request) {
                        Err(f) => Err(f),
                        Ok(method) => match body_spec(request, name, method, files) {
                            Err(f) => Err(f),
                            Ok(body) => match headers_spec(request) {
                                Err(f) => Err(f),
                                Ok(headers) => Ok(
                                    RequestView {
                                        name,
                                        url,
                                        method,
                                        headers,
                                        body,
                                        with_item,
                                        index,
                                        assign,
                                    },
                                ),
                            },
                        },
                    },
                },
            },
        },
    }
}

/// Whether `method` is one of the methods that send a body.
fn method_sends_body(method: &String) -> (r: bool)
    ensures
        r == sends_body(method@),
{
    let post = "POST".to_owned();
    let patch = "PATCH".to_owned();
    let put = "PUT".to_owned();
    *method == post || *method == patch || *method == put
}

/// The body of the request named `name` that `request` describes.
fn read_body(request: &Value, name: &String, method: &String, files: &Files) -> (r: Result<
    Option<Body>,
    Error,
>)
    ensures
        match r {
            Ok(b) => body_spec(request@, name@, method@, *files) == Ok::<
                Option<BodyView>,
                Failure,
            >(optional_body(b)),
            Err(e) => body_spec(request@, name@, method@, *files) == Err::<
                Option<BodyView>,
                Failure,
            >(e@),
        },
{
    if !method_sends_body(method) {
        return Ok(None);
    }
    match request.get("body") {
        Some(Value::Text(t)) => Ok(Some(Body::Template(t.clone()))),
        Some(b) => match b.get_str("file") {
            Some(path) => match files.bytes(path.as_str()) {
                Some(bytes) => Ok(Some(Body::Binary(bytes.clone()))),
                None => Err(Error::new(ErrorKind::MissingBytes, path.clone())),
            },
            None => match b.get_str("hex") {
                Some(h) => match hex_decode(h.as_str()) {
                    Some(bytes) => Ok(Some(Body::Binary(bytes))),
                    None => Err(Error::new(ErrorKind::InvalidHex, h.clone())),
                },
                None => Err(Error::new(ErrorKind::InvalidBody, name.clone())),
            },
        },
        None => Err(Error::new(ErrorKind::InvalidBody, name.clone())),
    }
}

/// The headers of the request that `request` describes.
fn read_headers(request: &Value) -> (r: Result<Vec<(String, String)>, Error>)
    ensures
        match r {
            Ok(h) => headers_spec(request@) == Ok::<Seq<(Seq<char>, Seq<char>)>, Failure>(
                pairs(h@),
            ),
            Err(e) => headers_spec(request@) == Err::<Seq<(Seq<char>, Seq<char>)>, Failure>(e@),
        },
{
    let mut headers: Vec<(String, String)> = Vec::new();
    match request.get_mapping("headers") {
        Some(mapping) => {
            let ghost entries = entries_model(mapping@);
            let mut i: usize = 0;
            assert(pairs(headers@) =~= Seq::<(Seq<char>, Seq<char>)>::empty());
            while i < mapping.len()
                invariant
                    i <= mapping.len(),
                    entries == entries_model(mapping@),
                    object_field(request@, "headers"@) == Some(entries),
                    headers_upto(entries, i as nat) == Ok::<
                        Seq<(Seq<char>, Seq<char>)>,
                        Failure,
                    >(pairs(headers@)),
                decreases mapping.len() - i,
            {
                let ghost before = pairs(headers@);
                match &mapping[i].1 {
                    Value::Text(v) => {
                        headers.push((mapping[i].0.clone(), v.clone()));
                        assert(pairs(headers@) =~= before.push((entries[i as int].0, v@)));
                    },
                    _ => {
                        assert(headers_upto(entries, (i + 1) as nat) == Err::<
                            Seq<(Seq<char>, Seq<char>)>,
                            Failure,
                        >((ErrorKind::HeaderNotString, entries[i as int].0)));
                        proof {
                            lemma_headers_fail(entries, (i + 1) as nat, entries.len());
                        }
                        return Err(
                            Error::new(ErrorKind::HeaderNotString, mapping[i].0.clone()),
                        );
                    },
                }
                i += 1;
            }
            Ok(headers)
        },
        None => {
            assert(pairs(headers@) =~= Seq::<(Seq<char>, Seq<char>)>::empty());
            Ok(headers)
        },
    }
}

/// Once a header is refused, the headers are refused whatever follows.
proof fn lemma_headers_fail(entries: Seq<(Seq<char>, Json)>, n: nat, m: nat)
    requires
        n <= m <= entries.len(),
        headers_upto(entries, n) is Err,
    ensures
        headers_upto(entries, m) == headers_upto(entries, n),
    decreases m - n,
{
    if n < m {
        lemma_headers_fail(entries, n, (m - 1) as nat);
    }
}

impl Request {
    /// Whether the entry `item` is a request: it has the mapping `request`.
    pub fn is_that_you(item: &Value) -> (r: bool)
        ensures
            r == object_field(item@, "request"@).is_some(),
    {
        item.get_mapping("request").is_some()
    }

    /// The request that the entry `item` describes. The bytes of a body file
    /// are taken from `files`.
    pub fn new(item: &Value, with_item: Option<Value>, index: Option<u32>, files: &Files) -> (r:
        Result<Request, Error>)
        ensures
            agrees(r, request_spec(item@, optional_value(with_item), index, *files)),
    {
        let name = match extract(item, "name") {
            Ok(v) => v,
            Err(e) => {
                return Err(e);
            },
        };
        let request = match item.get("request") {
            Some(v) => v,
            None => {
                return Err(Error::about(ErrorKind::MissingField, "request"));
            },
        };
        let url = match extract(request, "url") {
            Ok(v) => v,
            Err(e) => {
                return Err(e);
            },
        };
        let assign = match extract_optional(item, "assign") {
            Ok(v) => v,
            Err(e) => {
                return Err(e);
            },
        };
        let method = match extract_optional(request, "method") {
            Ok(Some(m)) => to_uppercase(m.as_str()),
            Ok(None) => "GET".to_owned(),
            Err(e) => {
                return Err(e);
            },
        };
        let body = match read_body(request, &name, &method, files) {
            Ok(v) => v,
            Err(e) => {
                return Err(e);
            },
        };
        let headers = match read_headers(request) {
            Ok(v) => v,
            Err(e) => {
                return Err(e);
            },
        };
        Ok(Request { name, url, method, headers, body, with_item, index, assign })
    }
}

impl Clone for Request {
    fn clone(&self) -> (r: Request)
        ensures
            r@ == self@,
    {
        let mut headers: Vec<(String, String)> = Vec::new();
        let mut i: usize = 0;
        while i < self.headers.len()
            invariant
                i <= self.headers.len(),
                headers@.len() == i,
                forall|j: int|
                    0 <= j < i ==> headers@[j].0@ == self.headers@[j].0@ && headers@[j].1@
                        == self.headers@[j].1@,
            decreases self.headers.len() - i,
        {
            headers.push((self.headers[i].0.clone(), self.headers[i].1.clone()));
            i += 1;
        }
        assert(pairs(headers@) =~= pairs(self.headers@));
        Request {
            name: self.name.clone(),
            url: self.url.clone(),
            method: self.method.clone(),
            headers,
            body: match &self.body {
                Some(b) => Some(b.clone()),
                None => None,
            },
            with_item: match &self.with_item {
                Some(v) => Some(v.clone()),
                None => None,
            },
            index: self.index,
            assign: match &self.assign {
                Some(a) => Some(a.clone()),
                None => None,
            },
        }
    }
}

} // verus!
