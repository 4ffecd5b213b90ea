//! Intercepted requests: the domain filter, the routes and the headers that belong
//! to an origin decide, in this order, what becomes of a request.
use vstd::prelude::*;
use vstd::string::*;
use vstd::utf8::*;

use crate::cdp::{command, CdpCommand, CommandV};
use crate::glob::{pattern_selects, route_url_matches};
use crate::json::{
    copied_pairs, fields_view, opt_string, or_else, Fields, Items, Json, JsonV, Num,
};
use crate::outside::{base64_of, base64_text, encodable, parse_url, url_of, UrlParts, UrlView};
use crate::routes::{routes_view, ResponseV, RouteEntry, RouteResponse, RouteV};
use crate::text::{equal_ignoring_case, pairs, same, same_ignoring_case, texts};

verus! {

/// A request that the browser holds until it is told what to do with it.
#[derive(PartialEq, Eq, Debug)]
pub struct FetchPausedRequest {
    pub request_id: String,
    pub url: String,
    pub resource_type: String,
    pub session_id: String,
    pub request_headers: Option<Vec<(String, Json)>>,
}

/// The contents of an optional list of request headers.
pub open spec fn opt_headers(h: Option<Vec<(String, Json)>>) -> Option<Seq<(Seq<char>, JsonV)>> {
    match h {
        Some(h) => Some(fields_view(h@)),
        None => None,
    }
}

/// What becomes of a request.
#[derive(PartialEq, Eq, Debug)]
pub enum FetchDecision {
    Fail { reason: String },
    Continue,
    ContinueWith { headers: Vec<(String, String)> },
    Fulfill { status: u16, headers: Vec<(String, String)>, body: String },
}

/// The contents of a decision.
pub ghost enum DecisionV {
    Fail { reason: Seq<char> },
    Continue,
    ContinueWith { headers: Seq<(Seq<char>, Seq<char>)> },
    Fulfill { status: u16, headers: Seq<(Seq<char>, Seq<char>)>, body: Seq<char> },
}

impl FetchDecision {
    /// The contents of the decision.
    pub open spec fn view(self) -> DecisionV {
        match self {
            FetchDecision::Fail { reason } => DecisionV::Fail { reason: reason@ },
            FetchDecision::Continue => DecisionV::Continue,
            FetchDecision::ContinueWith { headers } => DecisionV::ContinueWith {
                headers: pairs(headers@),
            },
            FetchDecision::Fulfill { status, headers, body } => DecisionV::Fulfill {
                status,
                headers: pairs(headers@),
                body: body@,
            },
        }
    }
}

/// The contents of an optional decision.
pub open spec fn opt_decision(d: Option<FetchDecision>) -> Option<DecisionV> {
    match d {
        Some(d) => Some(d.view()),
        None => None,
    }
}

/// The request is for a document, that is, a navigation.
pub open spec fn is_document(resource_type: Seq<char>) -> bool {
    equal_ignoring_case(resource_type, "document"@)
}

/// The URL is one of those that the domain filter looks at.
pub open spec fn is_web(url: UrlView) -> bool {
    url.scheme == "http"@ || url.scheme == "https"@
}

/// The host that the domain filter is to be asked about.
pub open spec fn host_to_ask(url: Option<UrlView>) -> Option<Seq<char>> {
    match url {
        Some(u) => if is_web(u) {
            u.host
        } else {
            None
        },
        None => None,
    }
}

/// The page that stands in place of a document that the domain filter blocks.
pub open spec fn blocked_page(host: Seq<char>) -> Seq<char> {
    "<html><body><h1>Blocked</h1><p>Navigation to "@ + host
        + " is not allowed by domain filter.</p></body></html>"@
}

/// What the domain filter makes of a request, given whether it allows the host: of
/// URLs that are not on the web, documents fail and all else passes; a host that is
/// not allowed gets a page that says so where a document was asked for and a failure
/// otherwise. Without a filter, a URL that can be read or a host it decides nothing.
pub open spec fn filter_decision(
    url: Option<UrlView>,
    filter: Option<bool>,
    resource_type: Seq<char>,
) -> Option<DecisionV> {
    match (filter, url) {
        (Some(allowed), Some(u)) => if !is_web(u) {
            if is_document(resource_type) {
                Some(DecisionV::Fail { reason: "BlockedByClient"@ })
            } else {
                Some(DecisionV::Continue)
            }
        } else {
            match u.host {
                Some(host) => if allowed {
                    None
                } else if is_document(resource_type) {
                    Some(
                        DecisionV::Fulfill {
                            status: 403,
                            headers: seq![("Content-Type"@, "text/html"@)],
                            body: blocked_page(host),
                        },
                    )
                } else {
                    Some(DecisionV::Fail { reason: "BlockedByClient"@ })
                },
                None => None,
            }
        },
        _ => None,
    }
}

/// The route is for this request: its pattern selects the URL, and it is for all
/// resource types or names this one.
pub open spec fn route_applies(route: RouteV, url: Seq<char>, resource_type: Seq<char>) -> bool {
    &&& pattern_selects(route.url_pattern, url)
    &&& route.resource_types.len() == 0 || exists|i: int|
        0 <= i < route.resource_types.len() && equal_ignoring_case(
            #[trigger] route.resource_types[i],
            resource_type,
        )
}

/// The headers of a route's answer: the content type first, then the others.
pub open spec fn response_headers(r: ResponseV) -> Seq<(Seq<char>, Seq<char>)> {
    let start = match r.content_type {
        Some(t) => seq![("Content-Type"@, t)],
        None => Seq::<(Seq<char>, Seq<char>)>::empty(),
    };
    match r.headers {
        Some(h) => start + h,
        None => start,
    }
}

/// What a route that is for a request does to it: abort it, answer it, or nothing.
pub open spec fn route_action(route: RouteV) -> Option<DecisionV> {
    if route.abort {
        Some(DecisionV::Fail { reason: "Failed"@ })
    } else {
        match route.response {
            Some(r) => Some(
                DecisionV::Fulfill {
                    status: or_else(r.status, 200u16),
                    headers: response_headers(r),
                    body: or_else(r.body, Seq::<char>::empty()),
                },
            ),
            None => None,
        }
    }
}

/// What the routes make of a request: the first one that is for it and does
/// something to it decides.
pub open spec fn routes_decision(
    routes: Seq<RouteV>,
    url: Seq<char>,
    resource_type: Seq<char>,
) -> Option<DecisionV>
    decreases routes.len(),
{
    if routes.len() == 0 {
        None
    } else if route_applies(routes[0], url, resource_type) && route_action(routes[0]) is Some {
        route_action(routes[0])
    } else {
        routes_decision(routes.skip(1), url, resource_type)
    }
}

/// The headers that belong to an origin.
#[derive(PartialEq, Eq, Debug)]
pub struct OriginHeaders {
    pub origin: String,
    pub headers: Vec<(String, String)>,
}

/// The contents of the headers of some origins.
pub open spec fn origins_view(list: Seq<OriginHeaders>) -> Seq<
    (Seq<char>, Seq<(Seq<char>, Seq<char>)>),
> {
    list.map_values(|o: OriginHeaders| (o.origin@, pairs(o.headers@)))
}

/// The headers for an origin: those of the first entry for it.
pub open spec fn headers_for(
    list: Seq<(Seq<char>, Seq<(Seq<char>, Seq<char>)>)>,
    origin: Seq<char>,
) -> Option<Seq<(Seq<char>, Seq<char>)>>
    decreases list.len(),
{
    if list.len() == 0 {
        None
    } else if list[0].0 == origin {
        Some(list[0].1)
    } else {
        headers_for(list.skip(1), origin)
    }
}

/// Some header has the given name, whatever its case.
pub open spec fn names_header(headers: Seq<(Seq<char>, Seq<char>)>, name: Seq<char>) -> bool {
    exists|i: int| 0 <= i < headers.len() && equal_ignoring_case((#[trigger] headers[i]).0, name)
}

/// The headers of the request that stay: those with a string for a value that none
/// of the extra headers replaces.
pub open spec fn kept_headers(
    original: Seq<(Seq<char>, JsonV)>,
    extra: Seq<(Seq<char>, Seq<char>)>,
) -> Seq<(Seq<char>, Seq<char>)>
    decreases original.len(),
{
    if original.len() == 0 {
        Seq::<(Seq<char>, Seq<char>)>::empty()
    } else {
        let before = kept_headers(original.drop_last(), extra);
        let (name, value) = original.last();
        match value {
            JsonV::Str(s) => if names_header(extra, name) {
                before
            } else {
                before.push((name, s))
            },
            _ => before,
        }
    }
}

/// The headers of the request with the extra ones in place: what stays of the
/// original ones, then the extra ones.
pub open spec fn merged_headers(
    original: Option<Seq<(Seq<char>, JsonV)>>,
    extra: Seq<(Seq<char>, Seq<char>)>,
) -> Seq<(Seq<char>, Seq<char>)> {
    match original {
        Some(o) => kept_headers(o, extra) + extra,
        None => extra,
    }
}

/// What becomes of a request that neither the domain filter nor a route decides
/// about: it goes on, with the extra headers of its origin where there are some.
pub open spec fn origin_decision(
    url: Option<UrlView>,
    origins: Seq<(Seq<char>, Seq<(Seq<char>, Seq<char>)>)>,
    original: Option<Seq<(Seq<char>, JsonV)>>,
) -> DecisionV {
    let extra = match url {
        Some(u) => headers_for(origins, u.origin),
        None => None,
    };
    match extra {
        Some(h) => DecisionV::ContinueWith { headers: merged_headers(original, h) },
        None => DecisionV::Continue,
    }
}

/// What becomes of a request, given what its URL is read as and, where there is a
/// domain filter, whether that allows the host: the filter decides first, then the
/// routes, then the headers of its origin.
pub open spec fn fetch_decision(
    url: Option<UrlView>,
    filter: Option<bool>,
    routes: Seq<RouteV>,
    origins: Seq<(Seq<char>, Seq<(Seq<char>, Seq<char>)>)>,
    paused: FetchPausedRequest,
) -> DecisionV {
    match filter_decision(url, filter, paused.resource_type@) {
        Some(d) => d,
        None => match routes_decision(routes, paused.url@, paused.resource_type@) {
            Some(d) => d,
            None => origin_decision(url, origins, opt_headers(paused.request_headers)),
        },
    }
}

/// The host that the domain filter is to be asked about before a request is decided.
pub fn filter_host(url: &str) -> (r: Option<String>)
    ensures
        opt_string(r) == host_to_ask(url_of(url@)),
{
    host_of(parse_url(url))
}

/// The host that the domain filter is to be asked about, given what the URL is read as.
pub fn host_of(url: Option<UrlParts>) -> (r: Option<String>)
    ensures
        opt_string(r) == host_to_ask(crate::outside::opt_url(url)),
{
    match url {
        Some(u) => if same(&u.scheme, "http") || same(&u.scheme, "https") {
            u.host
        } else {
            None
        },
        None => None,
    }
}

fn blocked_text(host: &str) -> (r: String)
    ensures
        r@ == blocked_page(host@),
{
    let mut m = "<html><body><h1>Blocked</h1><p>Navigation to ".to_owned();
    m.append(host);
    m.append(" is not allowed by domain filter.</p></body></html>");
    m
}

fn decide_by_filter(url: &Option<UrlParts>, filter: Option<bool>, resource_type: &str) -> (r: Option<
    FetchDecision,
>)
    ensures
        opt_decision(r) == filter_decision(
            crate::outside::opt_url(*url),
            filter,
            resource_type@,
        ),
{
    let allowed = match filter {
        Some(a) => a,
        None => {
            return None;
        },
    };
    let u = match url {
        Some(u) => u,
        None => {
            return None;
        },
    };
    let document = same_ignoring_case(resource_type, "document");
    if !same(&u.scheme, "http") && !same(&u.scheme, "https") {
        return if document {
            Some(FetchDecision::Fail { reason: "BlockedByClient".to_owned() })
        } else {
            Some(FetchDecision::Continue)
        };
    }
    match &u.host {
        Some(host) => {
            if allowed {
                None
            } else if document {
                let mut headers: Vec<(String, String)> = Vec::new();
                headers.push(("Content-Type".to_owned(), "text/html".to_owned()));
                assert(pairs(headers@) == seq![("Content-Type"@, "text/html"@)]);
                Some(FetchDecision::Fulfill { status: 403, headers, body: blocked_text(host) })
            } else {
                Some(FetchDecision::Fail { reason: "BlockedByClient".to_owned() })
            }
        },
        None => None,
    }
}

fn applies(route: &RouteEntry, url: &str, resource_type: &str) -> (r: bool)
    ensures
        r == route_applies(route.view(), url@, resource_type@),
{
    if !route_url_matches(&route.url_pattern, url) {
        return false;
    }
    let n = route.resource_types.len();
    let ghost types = texts(route.resource_types@);
    if n == 0 {
        return true;
    }
    for i in 0..n
        invariant
            n == route.resource_types@.len(),
            types == texts(route.resource_types@),
            types == route.view().resource_types,
            pattern_selects(route.view().url_pattern, url@),
            forall|j: int|
                0 <= j < i ==> !equal_ignoring_case(#[trigger] types[j], resource_type@),
    {
        assert(types[i as int] == route.resource_types@[i as int]@);
        if same_ignoring_case(&route.resource_types[i], resource_type) {
            return true;
        }
    }
    false
}

fn answer(resp: &RouteResponse) -> (r: FetchDecision)
    ensures
        r.view() == (DecisionV::Fulfill {
            status: or_else(resp.view().status, 200u16),
            headers: response_headers(resp.view()),
            body: or_else(resp.view().body, Seq::<char>::empty()),
        }),
{
    let status: u16 = match resp.status {
        Some(s) => s,
        None => 200,
    };
    let body = match &resp.body {
        Some(b) => b.clone(),
        None => String::new(),
    };
    let mut headers: Vec<(String, String)> = Vec::new();
    assert(pairs(headers@) == Seq::<(Seq<char>, Seq<char>)>::empty());
    match &resp.content_type {
        Some(t) => {
            headers.push(("Content-Type".to_owned(), t.clone()));
            assert(pairs(headers@) == seq![("Content-Type"@, t@)]);
        },
        None => {},
    }
    match &resp.headers {
        Some(h) => {
            let mut more = copied_pairs(h);
            let ghost added = more@;
            let ghost first = headers@;
            headers.append(&mut more);
            assert(pairs(headers@) == pairs(first) + pairs(added));
        },
        None => {},
    }
    FetchDecision::Fulfill { status, headers, body }
}

fn decide_by_routes(routes: &Vec<RouteEntry>, url: &str, resource_type: &str) -> (r: Option<
    FetchDecision,
>)
    ensures
        opt_decision(r) == routes_decision(routes_view(routes@), url@, resource_type@),
{
    let ghost v = routes_view(routes@);
    assert(v.skip(0) == v);
    for i in 0..routes.len()
        invariant
            v == routes_view(routes@),
            routes_decision(v, url@, resource_type@) == routes_decision(
                v.skip(i as int),
                url@,
                resource_type@,
            ),
    {
        let route = &routes[i];
        assert(v.skip(i as int)[0] == route.view());
        assert(v.skip(i as int).skip(1) == v.skip(i + 1));
        if applies(route, url, resource_type) {
            if route.abort {
                return Some(FetchDecision::Fail { reason: "Failed".to_owned() });
            }
            match &route.response {
                Some(resp) => {
                    return Some(answer(resp));
                },
                None => {},
            }
        }
    }
    None
}

fn has_header(headers: &Vec<(String, String)>, name: &str) -> (r: bool)
    ensures
        r == names_header(pairs(headers@), name@),
{
    let ghost h = pairs(headers@);
    for i in 0..headers.len()
        invariant
            h == pairs(headers@),
            forall|j: int| 0 <= j < i ==> !equal_ignoring_case((#[trigger] h[j]).0, name@),
    {
        assert(h[i as int].0 == headers@[i as int].0@);
        if same_ignoring_case(&headers[i].0, name) {
            return true;
        }
    }
    false
}

proof fn lemma_header_fields(h: Seq<(String, Json)>, n: int)
    requires
        0 <= n < h.len(),
    ensures
        fields_view(h.take(n + 1)) == fields_view(h.take(n)).push((h[n].0@, h[n].1.view())),
{
    assert(h.take(n + 1).drop_last() == h.take(n));
    assert(h.take(n + 1).last() == h[n]);
}

fn merge(original: &Option<Vec<(String, Json)>>, extra: &Vec<(String, String)>) -> (r: Vec<
    (String, String),
>)
    ensures
        pairs(r@) == merged_headers(opt_headers(*original), pairs(extra@)),
{
    let mut out: Vec<(String, String)> = Vec::new();
    assert(pairs(out@) == Seq::<(Seq<char>, Seq<char>)>::empty());
    match original {
        Some(o) => {
            assert(o@.take(0) == Seq::<(String, Json)>::empty());
            for i in 0..o.len()
                invariant
                    pairs(out@) == kept_headers(fields_view(o@.take(i as int)), pairs(extra@)),
            {
                proof {
                    lemma_header_fields(o@, i as int);
                    let f = fields_view(o@.take(i + 1));
                    assert(f.drop_last() == fields_view(o@.take(i as int)));
                }
                if !has_header(extra, &o[i].0) {
                    match o[i].1.as_str() {
                        Some(s) => {
                            let ghost before = pairs(out@);
                            out.push((o[i].0.clone(), s.to_owned()));
                            assert(pairs(out@) == before.push((o@[i as int].0@, s@)));
                        },
                        None => {},
                    }
                }
            }
            assert(o@.take(o@.len() as int) == o@);
        },
        None => {},
    }
    let ghost kept = out@;
    let mut more = copied_pairs(extra);
    let ghost added = more@;
    out.append(&mut more);
    assert(pairs(out@) == pairs(kept) + pairs(added));
    assert(Seq::<(Seq<char>, Seq<char>)>::empty() + pairs(added) == pairs(added));
    out
}

fn find_origin<'a>(list: &'a Vec<OriginHeaders>, origin: &str) -> (r: Option<
    &'a Vec<(String, String)>,
>)
    ensures
        match r {
            Some(h) => headers_for(origins_view(list@), origin@) == Some(pairs(h@)),
            None => headers_for(origins_view(list@), origin@) is None,
        },
{
    let ghost v = origins_view(list@);
    assert(v.skip(0) == v);
    for i in 0..list.len()
        invariant
            v == origins_view(list@),
            headers_for(v, origin@) == headers_for(v.skip(i as int), origin@),
    {
        assert(v.skip(i as int)[0] == (list@[i as int].origin@, pairs(list@[i as int].headers@)));
        assert(v.skip(i as int).skip(1) == v.skip(i + 1));
        if same(&list[i].origin, origin) {
            return Some(&list[i].headers);
        }
    }
    None
}

/// What becomes of a request, given what its URL is read as and, where there is a
/// domain filter, whether that allows the host.
pub fn decide_fetch(
    url: &Option<UrlParts>,
    filter: Option<bool>,
    routes: &Vec<RouteEntry>,
    origins: &Vec<OriginHeaders>,
    paused: &FetchPausedRequest,
) -> (r: FetchDecision)
    ensures
        r.view() == fetch_decision(
            crate::outside::opt_url(*url),
            filter,
            routes_view(routes@),
            origins_view(origins@),
            *paused,
        ),
{
    match decide_by_filter(url, filter, &paused.resource_type) {
        Some(d) => {
            return d;
        },
        None => {},
    }
    match decide_by_routes(routes, &paused.url, &paused.resource_type) {
        Some(d) => {
            return d;
        },
        None => {},
    }
    match url {
        Some(u) => {
            match find_origin(origins, &u.origin) {
                Some(extra) => FetchDecision::ContinueWith {
                    headers: merge(&paused.request_headers, extra),
                },
                None => FetchDecision::Continue,
            }
        },
        None => FetchDecision::Continue,
    }
}

/// Headers as the browser takes them.
pub open spec fn headers_json(headers: Seq<(Seq<char>, Seq<char>)>) -> JsonV {
    JsonV::Array(
        headers.map_values(
            |h: (Seq<char>, Seq<char>)|
                JsonV::Object(seq![("name"@, JsonV::Str(h.0)), ("value"@, JsonV::Str(h.1))]),
        ),
    )
}

/// A list of name and value pairs, each as a JSON object.
pub fn named_values(list: &Vec<(String, String)>) -> (r: Json)
    ensures
        r.view() == headers_json(pairs(list@)),
{
    let mut items = Items::new();
    let ghost all = pairs(list@).map_values(
        |h: (Seq<char>, Seq<char>)|
            JsonV::Object(seq![("name"@, JsonV::Str(h.0)), ("value"@, JsonV::Str(h.1))]),
    );
    assert(items.view() == all.take(0));
    for i in 0..list.len()
        invariant
            all == pairs(list@).map_values(
                |h: (Seq<char>, Seq<char>)|
                    JsonV::Object(seq![("name"@, JsonV::Str(h.0)), ("value"@, JsonV::Str(h.1))]),
            ),
            items.view() == all.take(i as int),
    {
        let f = Fields::new().with("name", Json::text(&list[i].0)).with(
            "value",
            Json::text(&list[i].1),
        );
        assert(f.view() == seq![
            ("name"@, JsonV::Str(list@[i as int].0@)),
            ("value"@, JsonV::Str(list@[i as int].1@)),
        ]);
        items.push(f.done());
        assert(all.take(i + 1) == all.take(i as int).push(all[i as int]));
    }
    assert(all.take(list@.len() as int) == all);
    items.done()
}

/// The command that carries out a decision about the request with the given id. A
/// body goes out as base64 text.
pub open spec fn decision_command(d: DecisionV, id: Seq<char>, session: Seq<char>) -> CommandV {
    let request = ("requestId"@, JsonV::Str(id));
    match d {
        DecisionV::Fail { reason } => command(
            "Fetch.failRequest"@,
            JsonV::Object(seq![request, ("errorReason"@, JsonV::Str(reason))]),
            session,
        ),
        DecisionV::Continue => command(
            "Fetch.continueRequest"@,
            JsonV::Object(seq![request]),
            session,
        ),
        DecisionV::ContinueWith { headers } => command(
            "Fetch.continueRequest"@,
            JsonV::Object(seq![request, ("headers"@, headers_json(headers))]),
            session,
        ),
        DecisionV::Fulfill { status, headers, body } => command(
            "Fetch.fulfillRequest"@,
            JsonV::Object(
                seq![
                    request,
                    ("responseCode"@, JsonV::Number(Num::Unsigned(status as u64))),
                    ("responseHeaders"@, headers_json(headers)),
                    ("body"@, JsonV::Str(base64_text(encode_utf8(body)))),
                ],
            ),
            session,
        ),
    }
}

/// The decision can be carried out: a body that it holds is not too long for memory
/// as base64 text.
pub open spec fn can_carry_out(d: DecisionV) -> bool {
    match d {
        DecisionV::Fulfill { body, .. } => encodable(encode_utf8(body)),
        _ => true,
    }
}

/// The command that carries out a decision; none where its body is too long.
pub fn fetch_command(d: &FetchDecision, paused: &FetchPausedRequest) -> (r: Option<CdpCommand>)
    ensures
        r is Some == can_carry_out(d.view()),
        match r {
            Some(c) => c.view() == decision_command(
                d.view(),
                paused.request_id@,
                paused.session_id@,
            ),
            None => true,
        },
{
    let start = Fields::new().with("requestId", Json::text(&paused.request_id));
    let ghost request = ("requestId"@, JsonV::Str(paused.request_id@));
    assert(start.view() == seq![request]);
    match d {
        FetchDecision::Fail { reason } => {
            let f = start.with("errorReason", Json::text(reason));
            assert(f.view() == seq![request, ("errorReason"@, JsonV::Str(reason@))]);
            Some(CdpCommand::new("Fetch.failRequest", f.done(), &paused.session_id))
        },
        FetchDecision::Continue => Some(
            CdpCommand::new("Fetch.continueRequest", start.done(), &paused.session_id),
        ),
        FetchDecision::ContinueWith { headers } => {
            let f = start.with("headers", named_values(headers));
            assert(f.view() == seq![request, ("headers"@, headers_json(pairs(headers@)))]);
            Some(CdpCommand::new("Fetch.continueRequest", f.done(), &paused.session_id))
        },
        FetchDecision::Fulfill { status, headers, body } => {
            match base64_of(body) {
                Some(encoded) => {
                    let f = start.with(
                        "responseCode",
                        Json::Number(Num::Unsigned(*status as u64)),
                    ).with("responseHeaders", named_values(headers)).with(
                        "body",
                        Json::text(&encoded),
                    );
                    assert(f.view() == seq![
                        request,
                        ("responseCode"@, JsonV::Number(Num::Unsigned(*status as u64))),
                        ("responseHeaders"@, headers_json(pairs(headers@))),
                        ("body"@, JsonV::Str(base64_text(encode_utf8(body@)))),
                    ]);
                    Some(CdpCommand::new("Fetch.fulfillRequest", f.done(), &paused.session_id))
                },
                None => None,
            }
        },
    }
}

/// The command that answers the browser about a request, given, where there is a
/// domain filter, whether that allows the host of the request (see `filter_host`).
/// None where the body of the answer is too long.
pub fn resolve_fetch_paused(
    filter: Option<bool>,
    routes: &Vec<RouteEntry>,
    origins: &Vec<OriginHeaders>,
    paused: &FetchPausedRequest,
) -> (r: Option<CdpCommand>)
    ensures
        ({
            let d = fetch_decision(
                url_of(paused.url@),
                filter,
                routes_view(routes@),
                origins_view(origins@),
                *paused,
            );
            &&& r is Some == can_carry_out(d)
            &&& r matches Some(c) ==> c.view() == decision_command(
                d,
                paused.request_id@,
                paused.session_id@,
            )
        }),
{
    let url = parse_url(&paused.url);
    let d = decide_fetch(&url, filter, routes, origins, paused);
    fetch_command(&d, paused)
}

/// The domain filter takes priority: what it decides holds whatever the routes and
/// the headers of the origin say.
pub proof fn law_filter_has_priority(
    url: Option<UrlView>,
    filter: Option<bool>,
    routes: Seq<RouteV>,
    origins: Seq<(Seq<char>, Seq<(Seq<char>, Seq<char>)>)>,
    paused: FetchPausedRequest,
)
    requires
        filter_decision(url, filter, paused.resource_type@) is Some,
    ensures
        Some(fetch_decision(url, filter, routes, origins, paused)) == filter_decision(
            url,
            filter,
            paused.resource_type@,
        ),
{
}

/// Where there is no host to ask the domain filter about, its answer does not matter.
pub proof fn law_filter_is_asked_where_it_matters(url: Option<UrlView>, resource_type: Seq<char>)
    requires
        host_to_ask(url) is None,
    ensures
        filter_decision(url, Some(true), resource_type) == filter_decision(
            url,
            Some(false),
            resource_type,
        ),
{
}

/// A request to a host on the web that the filter does not allow never goes on: it
/// fails or is answered with status 403.
pub proof fn law_blocked_host_is_not_reached(
    url: UrlView,
    routes: Seq<RouteV>,
    origins: Seq<(Seq<char>, Seq<(Seq<char>, Seq<char>)>)>,
    paused: FetchPausedRequest,
)
    requires
        is_web(url),
        url.host is Some,
    ensures
        match fetch_decision(Some(url), Some(false), routes, origins, paused) {
            DecisionV::Fail { .. } => true,
            DecisionV::Fulfill { status, .. } => status == 403,
            _ => false,
        },
{
}

/// Where no route is for a request, the routes decide nothing about it.
pub proof fn law_unrouted_request_goes_on(
    routes: Seq<RouteV>,
    url: Seq<char>,
    resource_type: Seq<char>,
)
    requires
        forall|i: int|
            0 <= i < routes.len() ==> !route_applies(#[trigger] routes[i], url, resource_type),
    ensures
        routes_decision(routes, url, resource_type) is None,
    decreases routes.len(),
{
    if routes.len() > 0 {
        assert(!route_applies(routes[0], url, resource_type));
        assert forall|i: int| 0 <= i < routes.len() - 1 implies !route_applies(
            #[trigger] routes.skip(1)[i],
            url,
            resource_type,
        ) by {
            assert(!route_applies(routes[i + 1], url, resource_type));
        }
        law_unrouted_request_goes_on(routes.skip(1), url, resource_type);
    }
}

/// The first route that is for a request and does something to it decides; those
/// before it only look on, and those behind it are not asked.
pub proof fn law_first_acting_route_wins(
    routes: Seq<RouteV>,
    url: Seq<char>,
    resource_type: Seq<char>,
    k: int,
)
    requires
        0 <= k < routes.len(),
        route_applies(routes[k], url, resource_type),
        route_action(routes[k]) is Some,
        forall|i: int|
            0 <= i < k ==> !route_applies(#[trigger] routes[i], url, resource_type)
                || route_action(routes[i]) is None,
    ensures
        routes_decision(routes, url, resource_type) == route_action(routes[k]),
    decreases k,
{
    if k > 0 {
        assert(!route_applies(routes[0], url, resource_type) || route_action(routes[0]) is None);
        let rest = routes.skip(1);
        assert(rest[k - 1] == routes[k]);
        assert forall|i: int| 0 <= i < k - 1 implies !route_applies(
            #[trigger] rest[i],
            url,
            resource_type,
        ) || route_action(rest[i]) is None by {
            assert(rest[i] == routes[i + 1]);
        }
        law_first_acting_route_wins(rest, url, resource_type, k - 1);
    }
}

/// Of the merged headers, none from the request has the name of an extra header,
/// and the extra headers all stand at the end.
pub proof fn law_extra_headers_replace(
    original: Seq<(Seq<char>, JsonV)>,
    extra: Seq<(Seq<char>, Seq<char>)>,
    i: int,
)
    requires
        0 <= i < kept_headers(original, extra).len(),
    ensures
        ({
            let merged = merged_headers(Some(original), extra);
            let kept = kept_headers(original, extra);
            &&& !names_header(extra, merged[i].0)
            &&& merged.skip(kept.len() as int) == extra
            &&& original.contains((merged[i].0, JsonV::Str(merged[i].1)))
        }),
    decreases original.len(),
{
    let merged = merged_headers(Some(original), extra);
    let kept = kept_headers(original, extra);
    assert(merged.skip(kept.len() as int) == extra);
    assert(merged[i] == kept[i]);
    let before = kept_headers(original.drop_last(), extra);
    if i < before.len() {
        law_extra_headers_replace(original.drop_last(), extra, i);
        let m = merged_headers(Some(original.drop_last()), extra);
        assert(m[i] == before[i]);
        assert(kept[i] == before[i]);
        let x = (kept[i].0, JsonV::Str(kept[i].1));
        let k = choose|k: int|
            0 <= k < original.drop_last().len() && original.drop_last()[k] == x;
        assert(original[k] == x);
    } else {
        assert(original[original.len() - 1] == (kept[i].0, JsonV::Str(kept[i].1)));
    }
}

/// A header of the request with a string for a value that no extra header replaces
/// is still among the merged ones.
pub proof fn law_other_headers_stay(
    original: Seq<(Seq<char>, JsonV)>,
    extra: Seq<(Seq<char>, Seq<char>)>,
    name: Seq<char>,
    value: Seq<char>,
)
    requires
        original.contains((name, JsonV::Str(value))),
        !names_header(extra, name),
    ensures
        merged_headers(Some(original), extra).contains((name, value)),
{
    lemma_kept_header(original, extra, name, value);
    let kept = kept_headers(original, extra);
    let k = choose|k: int| 0 <= k < kept.len() && kept[k] == (name, value);
    assert((kept + extra)[k] == (name, value));
}

proof fn lemma_kept_header(
    original: Seq<(Seq<char>, JsonV)>,
    extra: Seq<(Seq<char>, Seq<char>)>,
    name: Seq<char>,
    value: Seq<char>,
)
    requires
        original.contains((name, JsonV::Str(value))),
        !names_header(extra, name),
    ensures
        kept_headers(original, extra).contains((name, value)),
    decreases original.len(),
{
    let x = (name, JsonV::Str(value));
    let kept = kept_headers(original, extra);
    let before = kept_headers(original.drop_last(), extra);
    let k = choose|k: int| 0 <= k < original.len() && original[k] == x;
    if k == original.len() - 1 {
        assert(kept[before.len() as int] == (name, value));
    } else {
        assert(original.drop_last()[k] == x);
        lemma_kept_header(original.drop_last(), extra, name, value);
        let j = choose|j: int| 0 <= j < before.len() && before[j] == (name, value);
        assert(kept[j] == (name, value));
    }
}

} // verus!
