//! What a request sends and what it makes of the answer.
//!
//! The call itself is made elsewhere: `Request::prepare` says what to send and
//! through which client of the pool, `Request::complete` takes the answer.

use vstd::prelude::*;
use crate::actions::request::{pairs, Body, BodyView, Request, RequestView};
use crate::actions::{push_report, report_views, Report, ReportView, TRANSPORT_FAILURE};
use crate::config::Config;
use crate::error::{Error, ErrorKind, Failure};
use crate::interpolator::{resolve_spec, Environment, Interpolator};
use crate::pool::{acquire, Pool};
use crate::reader::find_key;
use crate::text::{
    append_str, ascii_lowercase, chars_of, decimal_text, format_u64, string_of, to_ascii_lowercase,
    to_uppercase, uppercase,
};
use crate::value::{
    Context, Json, Value, entries_get, entries_insert, entries_model, insert_entry, json_text,
    strings,
};

verus! {

/// The name that requests give as their user agent.
pub const USER_AGENT: &'static str = "drill";

/// The methods that a request can have.
#[derive(Clone, Copy, Debug, PartialEq, Eq, Structural)]
pub enum Method {
    Get,
    Post,
    Put,
    Patch,
    Delete,
    Head,
}

/// The method that the text `m` names, in whatever case.
pub open spec fn method_of(m: Seq<char>) -> Option<Method> {
    let u = uppercase(m);
    if u == "GET"@ {
        Some(Method::Get)
    } else if u == "POST"@ {
        Some(Method::Post)
    } else if u == "PUT"@ {
        Some(Method::Put)
    } else if u == "PATCH"@ {
        Some(Method::Patch)
    } else if u == "DELETE"@ {
        Some(Method::Delete)
    } else if u == "HEAD"@ {
        Some(Method::Head)
    } else {
        None
    }
}

/// The method that the text `m` names.
pub fn read_method(m: &str) -> (r: Option<Method>)
    ensures
        r == method_of(m@),
{
    let u = to_uppercase(m);
    if u == "GET".to_owned() {
        Some(Method::Get)
    } else if u == "POST".to_owned() {
        Some(Method::Post)
    } else if u == "PUT".to_owned() {
        Some(Method::Put)
    } else if u == "PATCH".to_owned() {
        Some(Method::Patch)
    } else if u == "DELETE".to_owned() {
        Some(Method::Delete)
    } else if u == "HEAD".to_owned() {
        Some(Method::Head)
    } else {
        None
    }
}

/// What `Url::parse` makes of a text: nothing where it is no URL, and else the
/// scheme, the host if there is one, and the port if one is given.
pub uninterp spec fn parsed_url(s: Seq<char>) -> Option<
    (Seq<char>, Option<Seq<char>>, Option<u16>),
>;

/// The parts of a URL that say where it leads.
pub struct Origin {
    pub scheme: String,
    pub host: Option<String>,
    pub port: Option<u16>,
}

impl View for Origin {
    type V = (Seq<char>, Option<Seq<char>>, Option<u16>);

    open spec fn view(&self) -> (Seq<char>, Option<Seq<char>>, Option<u16>) {
        (
            self.scheme@,
            match self.host {
                Some(h) => Some(h@),
                None => None,
            },
            self.port,
        )
    }
}

/// `Url::parse`, with `Url::scheme`, `Url::host_str` and `Url::port` of what it
/// gives: the parts of the URL that `s` is, which depend on `s` alone.
#[verifier::external_body]
fn parse_url(s: &str) -> (r: Option<Origin>)
    ensures
        match r {
            Some(o) => parsed_url(s@) == Some(o@),
            None => parsed_url(s@) is None,
        },
{
    match url::Url::parse(s) {
        Ok(u) => Some(
            Origin {
                scheme: u.scheme().to_string(),
                host: match u.host_str() {
                    Some(h) => Some(h.to_string()),
                    None => None,
                },
                port: u.port(),
            },
        ),
        Err(_) => None,
    }
}

/// The key of the destination of a URL: scheme, host and port, the port being
/// 0 where the URL gives none.
pub open spec fn destination_key(origin: (Seq<char>, Option<Seq<char>>, Option<u16>)) -> Option<
    Seq<char>,
> {
    match origin.1 {
        Some(host) => Some(
            origin.0 + "://"@ + host + ":"@ + decimal_text(
                match origin.2 {
                    Some(p) => p as int,
                    None => 0,
                },
            ),
        ),
        None => None,
    }
}

/// The destination of the address `url`. An address that is no URL, or has no
/// host, is refused.
pub open spec fn destination_spec(url: Seq<char>) -> Result<Seq<char>, Failure> {
    match parsed_url(url) {
        Some(origin) => match destination_key(origin) {
            Some(key) => Ok(key),
            None => Err((ErrorKind::InvalidUrl, url)),
        },
        None => Err((ErrorKind::InvalidUrl, url)),
    }
}

/// The key of the destination of a URL with the parts `origin`.
pub fn destination_of(origin: &Origin) -> (r: Option<String>)
    ensures
        match r {
            Some(key) => destination_key(origin@) == Some(key@),
            None => destination_key(origin@) is None,
        },
{
    match &origin.host {
        Some(host) => {
            let mut out: Vec<char> = Vec::new();
            append_str(&mut out, origin.scheme.as_str());
            append_str(&mut out, "://");
            append_str(&mut out, host.as_str());
            append_str(&mut out, ":");
            let port: u64 = match origin.port {
                Some(p) => p as u64,
                None => 0,
            };
            let digits = format_u64(port);
            crate::text::append_chars(&mut out, &digits);
            assert(out@ =~= destination_key(origin@)->0);
            Some(string_of(&out))
        },
        None => None,
    }
}

/// The destination of the address `url`.
pub fn destination(url: &str) -> (r: Result<String, Error>)
    ensures
        match r {
            Ok(key) => destination_spec(url@) == Ok::<Seq<char>, Failure>(key@),
            Err(e) => destination_spec(url@) == Err::<Seq<char>, Failure>(e@),
        },
{
    match parse_url(url) {
        Some(origin) => match destination_of(&origin) {
            Some(key) => Ok(key),
            None => Err(Error::about(ErrorKind::InvalidUrl, url)),
        },
        None => Err(Error::about(ErrorKind::InvalidUrl, url)),
    }
}

/// The names of a list of headers.
pub open spec fn names(h: Seq<(Seq<char>, Seq<char>)>) -> Seq<Seq<char>> {
    Seq::new(h.len(), |i: int| h[i].0)
}

/// The headers `h` with the header `name` set to `value`: in place of the
/// first header of that name, or at the end where there is none.
pub open spec fn set_header(h: Seq<(Seq<char>, Seq<char>)>, name: Seq<char>, value: Seq<char>)
    -> Seq<(Seq<char>, Seq<char>)> {
    match find_key(names(h), name, 0) {
        Some(i) => h.update(i, (name, value)),
        None => h.push((name, value)),
    }
}

/// The position of the first header of `headers` whose name is `name`.
fn header_position(headers: &Vec<(String, String)>, name: &String) -> (r: Option<usize>)
    ensures
        match r {
            Some(i) => find_key(names(pairs(headers@)), name@, 0) == Some(i as int) && i
                < headers.len(),
            None => find_key(names(pairs(headers@)), name@, 0) is None,
        },
{
    let mut i: usize = 0;
    while i < headers.len()
        invariant
            i <= headers.len(),
            find_key(names(pairs(headers@)), name@, 0) == find_key(
                names(pairs(headers@)),
                name@,
                i as int,
            ),
        decreases headers.len() - i,
    {
        if headers[i].0 == *name {
            return Some(i);
        }
        i += 1;
    }
    None
}

/// Sets the header `name` to `value`.
pub fn put_header(headers: &mut Vec<(String, String)>, name: String, value: String)
    ensures
        pairs(final(headers)@) == set_header(pairs(old(headers)@), name@, value@),
{
    match header_position(headers, &name) {
        Some(i) => {
            headers.set(i, (name, value));
            assert(pairs(headers@) =~= pairs(old(headers)@).update(i as int, (name@, value@)));
        },
        None => {
            headers.push((name, value));
            assert(pairs(headers@) =~= pairs(old(headers)@).push((name@, value@)));
        },
    }
}

/// The value of the header `Cookie` for the first `n` of the cookies
/// `cookies`: each as its name, `=` and its value as JSON text, with `;`
/// between two of them.
pub open spec fn cookie_text(cookies: Seq<(Seq<char>, Json)>, n: nat) -> Seq<char>
    decreases n,
{
    if n == 0 || n > cookies.len() {
        Seq::empty()
    } else if n == 1 {
        cookies[0].0 + seq!['='] + json_text(cookies[0].1)
    } else {
        cookie_text(cookies, (n - 1) as nat) + seq![';'] + cookies[n - 1].0 + seq!['=']
            + json_text(cookies[n - 1].1)
    }
}

/// The value of the header `Cookie` for the cookies `cookies`.
pub fn cookie_header(cookies: &Vec<(String, Value)>) -> (r: String)
    ensures
        r@ == cookie_text(entries_model(cookies@), cookies@.len()),
{
    let ghost model = entries_model(cookies@);
    let mut out: Vec<char> = Vec::new();
    let mut i: usize = 0;
    while i < cookies.len()
        invariant
            i <= cookies.len(),
            model == entries_model(cookies@),
            out@ == cookie_text(model, i as nat),
        decreases cookies.len() - i,
    {
        if i > 0 {
            out.push(';');
        }
        append_str(&mut out, cookies[i].0.as_str());
        out.push('=');
        cookies[i].1.write_json(&mut out);
        assert(model[i as int] == (cookies@[i as int].0@, cookies@[i as int].1@));
        assert(out@ =~= cookie_text(model, (i + 1) as nat));
        i += 1;
    }
    string_of(&out)
}

/// The headers `h` and the cookies of the store: where the store has
/// `cookies`, they are sent as the header `cookie`; they must be a mapping.
pub open spec fn with_cookies(
    h: Seq<(Seq<char>, Seq<char>)>,
    store: Seq<(Seq<char>, Json)>,
    name: Seq<char>,
) -> Result<Seq<(Seq<char>, Seq<char>)>, Failure> {
    match entries_get(store, "cookies"@) {
        None => Ok(h),
        Some(Json::Object(c)) => Ok(set_header(h, "cookie"@, cookie_text(c, c.len()))),
        Some(_) => Err((ErrorKind::InvalidCookies, name)),
    }
}

/// The headers `h` with the first `n` of the headers `defaults` set, each
/// under its name in lower case.
pub open spec fn with_defaults(
    h: Seq<(Seq<char>, Seq<char>)>,
    defaults: Seq<(Seq<char>, Seq<char>)>,
    n: nat,
) -> Seq<(Seq<char>, Seq<char>)>
    decreases n,
{
    if n == 0 || n > defaults.len() {
        h
    } else {
        set_header(
            with_defaults(h, defaults, (n - 1) as nat),
            ascii_lowercase(defaults[n - 1].0),
            defaults[n - 1].1,
        )
    }
}

/// The headers `h` with the first `n` of the headers `templates` set, each
/// under its name in lower case and with its value resolved against the
/// store. The first value that does not resolve is the error.
pub open spec fn with_templates(
    h: Seq<(Seq<char>, Seq<char>)>,
    templates: Seq<(Seq<char>, Seq<char>)>,
    n: nat,
    store: Seq<(Seq<char>, Json)>,
    env: Seq<(Seq<char>, Seq<char>)>,
    strict: bool,
) -> Result<Seq<(Seq<char>, Seq<char>)>, Failure>
    decreases n,
{
    if n == 0 || n > templates.len() {
        Ok(h)
    } else {
        match with_templates(h, templates, (n - 1) as nat, store, env, strict) {
            Err(f) => Err(f),
            Ok(head) => match resolve_spec(templates[n - 1].1, store, env, strict) {
                Ok(v) => Ok(set_header(head, ascii_lowercase(templates[n - 1].0), v)),
                Err(f) => Err(f),
            },
        }
    }
}

/// Once a header fails to resolve, the headers fail whatever follows.
proof fn lemma_templates_fail(
    h: Seq<(Seq<char>, Seq<char>)>,
    templates: Seq<(Seq<char>, Seq<char>)>,
    n: nat,
    m: nat,
    store: Seq<(Seq<char>, Json)>,
    env: Seq<(Seq<char>, Seq<char>)>,
    strict: bool,
)
    requires
        n <= m <= templates.len(),
        with_templates(h, templates, n, store, env, strict) is Err,
    ensures
        with_templates(h, templates, m, store, env, strict) == with_templates(
            h,
            templates,
            n,
            store,
            env,
            strict,
        ),
    decreases m - n,
{
    if n < m {
        lemma_templates_fail(h, templates, n, (m - 1) as nat, store, env, strict);
    }
}

/// The headers that the request sends: the user agent; the cookies of the
/// store; the headers that every request carries; the headers of the request
/// itself. A header set later takes the place of one of the same name that was
/// set before.
pub open spec fn outgoing_headers(
    req: RequestView,
    store: Seq<(Seq<char>, Json)>,
    env: Seq<(Seq<char>, Seq<char>)>,
    strict: bool,
    defaults: Seq<(Seq<char>, Seq<char>)>,
) -> Result<Seq<(Seq<char>, Seq<char>)>, Failure> {
    match with_cookies(seq![("user-agent"@, USER_AGENT@)], store, req.name) {
        Err(f) => Err(f),
        Ok(h) => with_templates(
            with_defaults(h, defaults, defaults.len()),
            req.headers,
            req.headers.len(),
            store,
            env,
            strict,
        ),
    }
}

/// The store with the item and the index of the request in it, under `item`
/// and `index`.
pub open spec fn seeded(req: RequestView, store: Seq<(Seq<char>, Json)>) -> Seq<
    (Seq<char>, Json),
> {
    let with_item = match req.with_item {
        Some(v) => entries_insert(store, "item"@, v),
        None => store,
    };
    match req.index {
        Some(i) => entries_insert(with_item, "index"@, Json::Integer(i as i64)),
        None => with_item,
    }
}

/// The address that the request goes to: the resolved address itself, or,
/// where that starts with `/`, the `base` of the store followed by it.
pub open spec fn absolute_url(url: Seq<char>, store: Seq<(Seq<char>, Json)>) -> Result<
    Seq<char>,
    Failure,
> {
    if url.len() > 0 && url[0] == '/' {
        match entries_get(store, "base"@) {
            Some(Json::Text(base)) => Ok(base + url),
            Some(_) => Err((ErrorKind::WrongBase, url)),
            None => Err((ErrorKind::UnknownBase, url)),
        }
    } else {
        Ok(url)
    }
}

/// The body that the request sends: a template resolved against the store,
/// bytes as they are.
pub open spec fn outgoing_body(
    body: Option<BodyView>,
    store: Seq<(Seq<char>, Json)>,
    env: Seq<(Seq<char>, Seq<char>)>,
    strict: bool,
) -> Result<Option<BodyView>, Failure> {
    match body {
        Some(BodyView::Template(t)) => match resolve_spec(t, store, env, strict) {
            Ok(v) => Ok(Some(BodyView::Template(v))),
            Err(f) => Err(f),
        },
        Some(BodyView::Binary(b)) => Ok(Some(BodyView::Binary(b))),
        None => Ok(None),
    }
}

/// What a request sends.
#[derive(Debug, PartialEq, Eq)]
pub struct Outgoing {
    /// The name of the step, resolved.
    pub name: String,
    /// The address, resolved and absolute.
    pub url: String,
    /// The destination of the address: the key of the client in the pool.
    pub destination: String,
    /// The number of the client in the pool.
    pub client: usize,
    /// Whether the client has yet to be made.
    pub created: bool,
    pub method: Method,
    pub headers: Vec<(String, String)>,
    pub body: Option<Body>,
    /// In seconds.
    pub timeout: u64,
}

/// The model of what a request sends, apart from the client.
pub struct OutgoingView {
    pub name: Seq<char>,
    pub url: Seq<char>,
    pub destination: Seq<char>,
    pub method: Method,
    pub headers: Seq<(Seq<char>, Seq<char>)>,
    pub body: Option<BodyView>,
    pub timeout: u64,
}

impl View for Outgoing {
    type V = OutgoingView;

    open spec fn view(&self) -> OutgoingView {
        OutgoingView {
            name: self.name@,
            url: self.url@,
            destination: self.destination@,
            method: self.method,
            headers: pairs(self.headers@),
            body: crate::actions::request::optional_body(self.body),
            timeout: self.timeout,
        }
    }
}

/// What the request `req` sends, the store being `store`. The parts are made
/// in this order, and the first that fails is the error: the name and the
/// address, resolved; the absolute address; its destination; the method; the
/// body; the headers.
pub open spec fn outgoing_spec(
    req: RequestView,
    store: Seq<(Seq<char>, Json)>,
    env: Seq<(Seq<char>, Seq<char>)>,
    strict: bool,
    defaults: Seq<(Seq<char>, Seq<char>)>,
    timeout: u64,
) -> Result<OutgoingView, Failure> {
    match resolve_spec(req.name, store, env, strict) {
        Err(f) => Err(f),
        Ok(name) => match resolve_spec(req.url, store, env, strict) {
            Err(f) => Err(f),
            Ok(relative) => match absolute_url(relative, store) {
                Err(f) => Err(f),
                Ok(url) => match destination_spec(url) {
                    Err(f) => Err(f),
                    Ok(destination) => match method_of(req.method) {
                        None => Err((ErrorKind::UnknownMethod, req.method)),
                        Some(method) => match outgoing_body(req.body, store, env, strict) {
                            Err(f) => Err(f),
                            Ok(body) => match outgoing_headers(req, store, env, strict, defaults) {
                                Err(f) => Err(f),
                                Ok(headers) => Ok(
                                    OutgoingView {
                                        name,
                                        url,
                                        destination,
                                        method,
                                        headers,
                                        body,
                                        timeout,
                                    },
                                ),
                            },
                        },
                    },
                },
            },
        },
    }
}

/// The headers that the request `req` sends.
fn build_headers(req: &Request, context: &Context, env: &Environment, config: &Config) -> (r:
    Result<Vec<(String, String)>, Error>)
    ensures
        match r {
            Ok(h) => outgoing_headers(
                req@,
                context@,
                env@,
                !config.relaxed_interpolations,
                pairs(config.default_headers@),
            ) == Ok::<Seq<(Seq<char>, Seq<char>)>, Failure>(pairs(h@)),
            Err(e) => outgoing_headers(
                req@,
                context@,
                env@,
                !config.relaxed_interpolations,
                pairs(config.default_headers@),
            ) == Err::<Seq<(Seq<char>, Seq<char>)>, Failure>(e@),
        },
{
    let strict = !config.relaxed_interpolations;
    let mut headers: Vec<(String, String)> = Vec::new();
    headers.push(("user-agent".to_owned(), USER_AGENT.to_owned()));
    assert(pairs(headers@) =~= seq![("user-agent"@, USER_AGENT@)]);
    match context.get("cookies") {
        None => {},
        Some(Value::Object(cookies)) => {
            proof {
                crate::value::lemma_object_view(Value::Object(*cookies));
            }
            put_header(&mut headers, "cookie".to_owned(), cookie_header(cookies));
        },
        Some(_) => {
            return Err(Error::new(ErrorKind::InvalidCookies, req.name.clone()));
        },
    }
    let ghost base = pairs(headers@);
    let ghost defaults = pairs(config.default_headers@);
    let mut i: usize = 0;
    while i < config.default_headers.len()
        invariant
            i <= config.default_headers.len(),
            defaults == pairs(config.default_headers@),
            pairs(headers@) == with_defaults(base, defaults, i as nat),
        decreases config.default_headers.len() - i,
    {
        let name = to_ascii_lowercase(config.default_headers[i].0.as_str());
        put_header(&mut headers, name, config.default_headers[i].1.clone());
        i += 1;
    }
    let ghost start = pairs(headers@);
    let ghost templates = pairs(req.headers@);
    let interpolator = Interpolator::new(context, env);
    let mut j: usize = 0;
    while j < req.headers.len()
        invariant
            j <= req.headers.len(),
            templates == pairs(req.headers@),
            strict == !config.relaxed_interpolations,
            defaults == pairs(config.default_headers@),
            with_cookies(seq![("user-agent"@, USER_AGENT@)], context@, req.name@) == Ok::<
                Seq<(Seq<char>, Seq<char>)>,
                Failure,
            >(base),
            start == with_defaults(base, defaults, defaults.len()),
            interpolator.store() == context@,
            interpolator.environment() == env@,
            with_templates(start, templates, j as nat, context@, env@, strict) == Ok::<
                Seq<(Seq<char>, Seq<char>)>,
                Failure,
            >(pairs(headers@)),
        decreases req.headers.len() - j,
    {
        match interpolator.resolve(req.headers[j].1.as_str(), strict) {
            Ok(value) => {
                let name = to_ascii_lowercase(req.headers[j].0.as_str());
                put_header(&mut headers, name, value);
            },
            Err(e) => {
                proof {
                    lemma_templates_fail(
                        start,
                        templates,
                        (j + 1) as nat,
                        templates.len(),
                        context@,
                        env@,
                        strict,
                    );
                }
                return Err(e);
            },
        }
        j += 1;
    }
    Ok(headers)
}

/// The body that the request `req` sends.
fn build_body(req: &Request, context: &Context, env: &Environment, config: &Config) -> (r: Result<
    Option<Body>,
    Error,
>)
    ensures
        match r {
            Ok(b) => outgoing_body(
                crate::actions::request::optional_body(req.body),
                context@,
                env@,
                !config.relaxed_interpolations,
            ) == Ok::<Option<BodyView>, Failure>(crate::actions::request::optional_body(b)),
            Err(e) => outgoing_body(
                crate::actions::request::optional_body(req.body),
                context@,
                env@,
                !config.relaxed_interpolations,
            ) == Err::<Option<BodyView>, Failure>(e@),
        },
{
    match &req.body {
        Some(Body::Template(t)) => {
            match Interpolator::new(context, env).resolve(
                t.as_str(),
                !config.relaxed_interpolations,
            ) {
                Ok(v) => Ok(Some(Body::Template(v))),
                Err(e) => Err(e),
            }
        },
        Some(Body::Binary(b)) => Ok(Some(Body::Binary(b.clone()))),
        None => Ok(None),
    }
}

/// The address that the request goes to.
fn build_url(relative: String, context: &Context) -> (r: Result<String, Error>)
    ensures
        match r {
            Ok(u) => absolute_url(relative@, context@) == Ok::<Seq<char>, Failure>(u@),
            Err(e) => absolute_url(relative@, context@) == Err::<Seq<char>, Failure>(e@),
        },
{
    let chars = chars_of(relative.as_str());
    if chars.len() > 0 && chars[0] == '/' {
        match context.get("base") {
            Some(Value::Text(base)) => {
                let mut out: Vec<char> = Vec::new();
                append_str(&mut out, base.as_str());
                crate::text::append_chars(&mut out, &chars);
                assert(out@ =~= base@ + relative@);
                Ok(string_of(&out))
            },
            Some(_) => Err(Error::new(ErrorKind::WrongBase, relative)),
            None => Err(Error::new(ErrorKind::UnknownBase, relative)),
        }
    } else {
        Ok(relative)
    }
}

/// What the request `req` sends, apart from the client.
fn build(req: &Request, context: &Context, env: &Environment, config: &Config) -> (r: Result<
    Outgoing,
    Error,
>)
    ensures
        match r {
            Ok(o) => outgoing_spec(
                req@,
                context@,
                env@,
                !config.relaxed_interpolations,
                pairs(config.default_headers@),
                config.timeout,
            ) == Ok::<OutgoingView, Failure>(o@),
            Err(e) => outgoing_spec(
                req@,
                context@,
                env@,
                !config.relaxed_interpolations,
                pairs(config.default_headers@),
                config.timeout,
            ) == Err::<OutgoingView, Failure>(e@),
        },
{
    let strict = !config.relaxed_interpolations;
    let interpolator = Interpolator::new(context, env);
    let name = match interpolator.resolve(req.name.as_str(), strict) {
        Ok(v) => v,
        Err(e) => {
            return Err(e);
        },
    };
    let relative = match interpolator.resolve(req.url.as_str(), strict) {
        Ok(v) => v,
        Err(e) => {
            return Err(e);
        },
    };
    let url = match build_url(relative, context) {
        Ok(v) => v,
        Err(e) => {
            return Err(e);
        },
    };
    let key = match destination(url.as_str()) {
        Ok(v) => v,
        Err(e) => {
            return Err(e);
        },
    };
    let method = match read_method(req.method.as_str()) {
        Some(m) => m,
        None => {
            return Err(Error::new(ErrorKind::UnknownMethod, req.method.clone()));
        },
    };
    let body = match build_body(req, context, env, config) {
        Ok(v) => v,
        Err(e) => {
            return Err(e);
        },
    };
    let headers = match build_headers(req, context, env, config) {
        Ok(v) => v,
        Err(e) => {
            return Err(e);
        },
    };
    Ok(
        Outgoing {
            name,
            url,
            destination: key,
            client: 0,
            created: false,
            method,
            headers,
            body,
            timeout: config.timeout,
        },
    )
}

/// What came back from a call.
#[derive(Debug, PartialEq, Eq)]
pub struct Response {
    pub status: u16,
    /// The headers, with their names in lower case.
    pub headers: Vec<(String, String)>,
    /// The cookies that the response sets, as names and values.
    pub cookies: Vec<(String, String)>,
    /// The body as a JSON value; null where it is no JSON text.
    pub body: Value,
}

/// The model of a `Response`.
pub struct ResponseView {
    pub status: u16,
    pub headers: Seq<(Seq<char>, Seq<char>)>,
    pub cookies: Seq<(Seq<char>, Seq<char>)>,
    pub body: Json,
}

impl View for Response {
    type V = ResponseView;

    open spec fn view(&self) -> ResponseView {
        ResponseView {
            status: self.status,
            headers: pairs(self.headers@),
            cookies: pairs(self.cookies@),
            body: self.body@,
        }
    }
}

/// The model of an optional response.
pub open spec fn optional_response(r: Option<&Response>) -> Option<ResponseView> {
    match r {
        Some(response) => Some(response@),
        None => None,
    }
}

/// The members `entries` with the first `n` of `texts` stored as strings, one
/// after the other.
pub open spec fn insert_texts(
    entries: Seq<(Seq<char>, Json)>,
    texts: Seq<(Seq<char>, Seq<char>)>,
    n: nat,
) -> Seq<(Seq<char>, Json)>
    decreases n,
{
    if n == 0 || n > texts.len() {
        entries
    } else {
        entries_insert(
            insert_texts(entries, texts, (n - 1) as nat),
            texts[n - 1].0,
            Json::Text(texts[n - 1].1),
        )
    }
}

/// Stores each of `texts` as a string among `entries`.
fn store_texts(entries: &mut Vec<(String, Value)>, texts: &Vec<(String, String)>)
    ensures
        entries_model(final(entries)@) == insert_texts(
            entries_model(old(entries)@),
            pairs(texts@),
            texts@.len(),
        ),
{
    let mut i: usize = 0;
    while i < texts.len()
        invariant
            i <= texts.len(),
            entries_model(entries@) == insert_texts(
                entries_model(old(entries)@),
                pairs(texts@),
                i as nat,
            ),
        decreases texts.len() - i,
    {
        insert_entry(entries, texts[i].0.clone(), Value::Text(texts[i].1.clone()));
        i += 1;
    }
}

/// The store with the cookies of a response in it: they join the mapping
/// `cookies` of the store, which is made where there is none. A response
/// without cookies leaves the store as it is.
pub open spec fn merged_cookies(
    store: Seq<(Seq<char>, Json)>,
    cookies: Seq<(Seq<char>, Seq<char>)>,
    name: Seq<char>,
) -> Result<Seq<(Seq<char>, Json)>, Failure> {
    if cookies.len() == 0 {
        Ok(store)
    } else {
        match entries_get(store, "cookies"@) {
            None => Ok(
                entries_insert(
                    store,
                    "cookies"@,
                    Json::Object(insert_texts(Seq::empty(), cookies, cookies.len())),
                ),
            ),
            Some(Json::Object(held)) => Ok(
                entries_insert(
                    store,
                    "cookies"@,
                    Json::Object(insert_texts(held, cookies, cookies.len())),
                ),
            ),
            Some(_) => Err((ErrorKind::InvalidCookies, name)),
        }
    }
}

/// The names of a list of headers, in lower case.
pub open spec fn lower_names(h: Seq<(Seq<char>, Seq<char>)>) -> Seq<Seq<char>> {
    Seq::new(h.len(), |i: int| ascii_lowercase(h[i].0))
}

/// The value of the first header of `headers` whose name is `name`, whatever
/// the case of the two.
pub open spec fn header_value(headers: Seq<(Seq<char>, Seq<char>)>, name: Seq<char>) -> Option<
    Seq<char>,
> {
    match find_key(lower_names(headers), ascii_lowercase(name), 0) {
        Some(i) => Some(headers[i].1),
        None => None,
    }
}

/// The value of the first header of `headers` whose name is `name`.
pub fn find_header<'a>(headers: &'a Vec<(String, String)>, name: &str) -> (r: Option<&'a String>)
    ensures
        match r {
            Some(v) => header_value(pairs(headers@), name@) == Some(v@),
            None => header_value(pairs(headers@), name@) is None,
        },
{
    let wanted = to_ascii_lowercase(name);
    let mut i: usize = 0;
    while i < headers.len()
        invariant
            i <= headers.len(),
            wanted@ == ascii_lowercase(name@),
            find_key(lower_names(pairs(headers@)), wanted@, 0) == find_key(
                lower_names(pairs(headers@)),
                wanted@,
                i as int,
            ),
        decreases headers.len() - i,
    {
        if to_ascii_lowercase(headers[i].0.as_str()) == wanted {
            return Some(&headers[i].1);
        }
        i += 1;
    }
    None
}

/// The store with the headers of a response that are named among the first
/// `n` of `names` copied into it, each under the name as `names` gives it.
pub open spec fn copied_headers(
    store: Seq<(Seq<char>, Json)>,
    names: Seq<Seq<char>>,
    n: nat,
    headers: Seq<(Seq<char>, Seq<char>)>,
) -> Seq<(Seq<char>, Json)>
    decreases n,
{
    if n == 0 || n > names.len() {
        store
    } else {
        let head = copied_headers(store, names, (n - 1) as nat, headers);
        match header_value(headers, names[n - 1]) {
            Some(v) => entries_insert(head, names[n - 1], Json::Text(v)),
            None => head,
        }
    }
}

/// What a step stores of a response under the name that it assigns to: the
/// body, the headers and the status.
pub open spec fn snapshot(response: ResponseView) -> Json {
    Json::Object(
        seq![
            ("body"@, response.body),
            (
                "headers"@,
                Json::Object(
                    insert_texts(Seq::empty(), response.headers, response.headers.len()),
                ),
            ),
            ("status"@, Json::Integer(response.status as i64)),
        ],
    )
}

/// The store after the response `response` to the request `req`: with the
/// cookies of the response, with the headers to copy, and, where the request
/// assigns, with what it stores of the response.
pub open spec fn received(
    req: RequestView,
    store: Seq<(Seq<char>, Json)>,
    copy: Seq<Seq<char>>,
    response: ResponseView,
) -> Result<Seq<(Seq<char>, Json)>, Failure> {
    match merged_cookies(store, response.cookies, req.name) {
        Err(f) => Err(f),
        Ok(with_cookies) => {
            let with_headers = copied_headers(with_cookies, copy, copy.len(), response.headers);
            match req.assign {
                Some(key) => Ok(entries_insert(with_headers, key, snapshot(response))),
                None => Ok(with_headers),
            }
        },
    }
}

/// The status that is reported for a call: that of the response, or 520 where
/// none came.
pub open spec fn reported_status(response: Option<ResponseView>) -> u16 {
    match response {
        Some(r) => r.status,
        None => TRANSPORT_FAILURE,
    }
}

/// The store after a call that the request `req` made: as it was where no
/// response came, and else with what the response brings.
pub open spec fn completed(
    req: RequestView,
    store: Seq<(Seq<char>, Json)>,
    copy: Seq<Seq<char>>,
    response: Option<ResponseView>,
) -> Result<Seq<(Seq<char>, Json)>, Failure> {
    match response {
        None => Ok(store),
        Some(r) => received(req, store, copy, r),
    }
}

/// Stores the cookies of a response.
fn merge_cookies(context: &mut Context, cookies: &Vec<(String, String)>, name: &String) -> (r:
    Result<(), Error>)
    ensures
        match merged_cookies(old(context)@, pairs(cookies@), name@) {
            Ok(store) => r is Ok && final(context)@ == store,
            Err(f) => r is Err && r->Err_0@ == f && final(context)@ == old(context)@,
        },
{
    if cookies.len() == 0 {
        return Ok(());
    }
    let mut held: Vec<(String, Value)> = match context.get("cookies") {
        None => {
            let fresh: Vec<(String, Value)> = Vec::new();
            assert(entries_model(fresh@) =~= Seq::<(Seq<char>, Json)>::empty());
            fresh
        },
        Some(Value::Object(entries)) => {
            proof {
                crate::value::lemma_object_view(Value::Object(*entries));
            }
            crate::value::clone_entries(entries)
        },
        Some(_) => {
            return Err(Error::new(ErrorKind::InvalidCookies, name.clone()));
        },
    };
    store_texts(&mut held, cookies);
    let value = Value::Object(held);
    proof {
        crate::value::lemma_object_view(value);
    }
    context.insert("cookies".to_owned(), value);
    Ok(())
}

/// Copies the headers of a response that `names` names into the store.
fn copy_headers(context: &mut Context, names: &Vec<String>, headers: &Vec<(String, String)>)
    ensures
        final(context)@ == copied_headers(
            old(context)@,
            strings(names@),
            names@.len(),
            pairs(headers@),
        ),
{
    let mut i: usize = 0;
    while i < names.len()
        invariant
            i <= names.len(),
            context@ == copied_headers(old(context)@, strings(names@), i as nat, pairs(headers@)),
        decreases names.len() - i,
    {
        assert(strings(names@)[i as int] == names@[i as int]@);
        match find_header(headers, names[i].as_str()) {
            Some(v) => {
                context.insert(names[i].clone(), Value::Text(v.clone()));
            },
            None => {},
        }
        i += 1;
    }
}

/// What a step stores of a response.
fn take_snapshot(response: &Response) -> (r: Value)
    ensures
        r@ == snapshot(response@),
{
    let mut headers: Vec<(String, Value)> = Vec::new();
    assert(entries_model(headers@) =~= Seq::<(Seq<char>, Json)>::empty());
    store_texts(&mut headers, &response.headers);
    let headers = Value::Object(headers);
    let mut members: Vec<(String, Value)> = Vec::new();
    members.push(("body".to_owned(), response.body.clone()));
    members.push(("headers".to_owned(), headers));
    members.push(("status".to_owned(), Value::Integer(response.status as i64)));
    let r = Value::Object(members);
    proof {
        crate::value::lemma_object_view(headers);
        crate::value::lemma_object_view(r);
        assert(entries_model(members@) =~= snapshot(response@)->Object_0);
    }
    r
}

impl Request {
    /// Gets the request ready to be sent. The item and the index of the
    /// request are stored first, whatever follows. Then what to send is put
    /// together, and the pool is asked for the client of its destination.
    /// Where a part fails, the pool stays as it is.
    pub fn prepare(&self, context: &mut Context, env: &Environment, pool: &mut Pool, config: &Config)
        -> (r: Result<Outgoing, Error>)
        ensures
            final(context)@ == seeded(self@, old(context)@),
            match outgoing_spec(
                self@,
                final(context)@,
                env@,
                !config.relaxed_interpolations,
                pairs(config.default_headers@),
                config.timeout,
            ) {
                Ok(o) => r is Ok && r->Ok_0@ == o && (
                    r->Ok_0.client as int,
                    r->Ok_0.created,
                    final(pool)@,
                ) == acquire(old(pool)@, o.destination),
                Err(f) => r is Err && r->Err_0@ == f && final(pool)@ == old(pool)@,
            },
    {
        match &self.with_item {
            Some(v) => {
                context.insert("item".to_owned(), v.clone());
            },
            None => {},
        }
        match self.index {
            Some(i) => {
                context.insert("index".to_owned(), Value::Integer(i as i64));
            },
            None => {},
        }
        match build(self, context, env, config) {
            Ok(outgoing) => {
                let (client, created) = pool.get_or_create(outgoing.destination.as_str());
                Ok(
                    Outgoing {
                        name: outgoing.name,
                        url: outgoing.url,
                        destination: outgoing.destination,
                        client,
                        created,
                        method: outgoing.method,
                        headers: outgoing.headers,
                        body: outgoing.body,
                        timeout: outgoing.timeout,
                    },
                )
            },
            Err(e) => Err(e),
        }
    }

    /// Takes the outcome of the call, which took `elapsed` microseconds. One
    /// report is added in any case: with the status of the response, or with
    /// 520 where none came, which is no error. A response changes the store:
    /// its cookies, the headers to copy and what the step assigns are stored.
    pub fn complete(
        &self,
        context: &mut Context,
        reports: &mut Vec<Report>,
        config: &Config,
        response: Option<&Response>,
        elapsed: u64,
    ) -> (r: Result<(), Error>)
        ensures
            report_views(final(reports)@) == report_views(old(reports)@).push(
                ReportView {
                    name: self.name@,
                    duration: elapsed,
                    status: reported_status(optional_response(response)),
                },
            ),
            match completed(
                self@,
                old(context)@,
                strings(config.copy_headers@),
                optional_response(response),
            ) {
                Ok(store) => r is Ok && final(context)@ == store,
                Err(f) => r is Err && r->Err_0@ == f && final(context)@ == old(context)@,
            },
    {
        match response {
            None => {
                push_report(reports, self.name.as_str(), elapsed, TRANSPORT_FAILURE);
                Ok(())
            },
            Some(response) => {
                push_report(reports, self.name.as_str(), elapsed, response.status);
                match merge_cookies(context, &response.cookies, &self.name) {
                    Ok(()) => {},
                    Err(e) => {
                        return Err(e);
                    },
                }
                copy_headers(context, &config.copy_headers, &response.headers);
                match &self.assign {
                    Some(key) => {
                        context.insert(key.clone(), take_snapshot(response));
                    },
                    None => {},
                }
                Ok(())
            },
        }
    }
}


} // verus!
