//! Routes: which requests are intercepted, and how they are answered.
use vstd::prelude::*;
use vstd::string::*;

use crate::cdp::{
    bare_command, command, outcome, Browser, CdpCommand, Exchange, ExchangeV,
};
use crate::glob::{collapse_wildcards, collapsed};
use crate::json::{
    opt_string, or_else, owned, string_fields, string_items, Fields, Items, Json, JsonV,
};
use crate::text::{pairs, pieces, same, split_trimmed, texts, trimmed_items};

verus! {

/// The answer that a route gives in place of the server.
#[derive(PartialEq, Eq, Debug)]
pub struct RouteResponse {
    pub status: Option<u16>,
    pub body: Option<String>,
    pub content_type: Option<String>,
    pub headers: Option<Vec<(String, String)>>,
}

/// The contents of a route's answer.
pub ghost struct ResponseV {
    pub status: Option<u16>,
    pub body: Option<Seq<char>>,
    pub content_type: Option<Seq<char>>,
    pub headers: Option<Seq<(Seq<char>, Seq<char>)>>,
}

/// The contents of an optional list of string pairs.
pub open spec fn opt_pairs(list: Option<Vec<(String, String)>>) -> Option<
    Seq<(Seq<char>, Seq<char>)>,
> {
    match list {
        Some(list) => Some(pairs(list@)),
        None => None,
    }
}

impl RouteResponse {
    /// The contents of the answer.
    pub open spec fn view(self) -> ResponseV {
        ResponseV {
            status: self.status,
            body: opt_string(self.body),
            content_type: opt_string(self.content_type),
            headers: opt_pairs(self.headers),
        }
    }
}

/// A route: for the URLs that its pattern selects, of some resource types or of all,
/// it aborts the request, answers it, or leaves it alone.
#[derive(PartialEq, Eq, Debug)]
pub struct RouteEntry {
    pub url_pattern: String,
    pub response: Option<RouteResponse>,
    pub abort: bool,
    pub resource_types: Vec<String>,
}

/// The contents of a route.
pub ghost struct RouteV {
    pub url_pattern: Seq<char>,
    pub response: Option<ResponseV>,
    pub abort: bool,
    pub resource_types: Seq<Seq<char>>,
}

/// The contents of an optional answer.
pub open spec fn opt_response(r: Option<RouteResponse>) -> Option<ResponseV> {
    match r {
        Some(r) => Some(r.view()),
        None => None,
    }
}

impl RouteEntry {
    /// The contents of the route.
    pub open spec fn view(self) -> RouteV {
        RouteV {
            url_pattern: self.url_pattern@,
            response: opt_response(self.response),
            abort: self.abort,
            resource_types: texts(self.resource_types@),
        }
    }
}

/// The contents of the routes, in order.
pub open spec fn routes_view(routes: Seq<RouteEntry>) -> Seq<RouteV> {
    routes.map_values(|r: RouteEntry| r.view())
}

/// The answer that a command describes: under `response` where that is not null, or
/// as a bare `body`.
pub open spec fn described_response(cmd: JsonV) -> Option<ResponseV> {
    match cmd.get("response"@) {
        Some(v) => if v is Null {
            bare_body(cmd)
        } else {
            Some(
                ResponseV {
                    status: match v.u64_at("status"@) {
                        Some(n) => Some(n as u16),
                        None => None,
                    },
                    body: v.str_at("body"@),
                    content_type: v.str_at("contentType"@),
                    headers: match v.get("headers"@) {
                        Some(h) => match h.as_object() {
                            Some(fields) => Some(string_fields(fields)),
                            None => None,
                        },
                        None => None,
                    },
                },
            )
        },
        None => bare_body(cmd),
    }
}

/// The answer that consists of the body in a command alone.
pub open spec fn bare_body(cmd: JsonV) -> Option<ResponseV> {
    match cmd.str_at("body"@) {
        Some(body) => Some(
            ResponseV { status: None, body: Some(body), content_type: None, headers: None },
        ),
        None => None,
    }
}

/// The answer that a command describes.
pub fn parse_route_response(cmd: &Json) -> (r: Option<RouteResponse>)
    ensures
        opt_response(r) == described_response(cmd.view()),
{
    match cmd.get("response") {
        Some(v) => {
            if !v.is_null() {
                let status: Option<u16> = match v.u64_at("status") {
                    Some(n) => Some(
                        #[verifier::truncate]
                        (n as u16),
                    ),
                    None => None,
                };
                let headers = match v.get("headers") {
                    Some(h) => h.string_pairs(),
                    None => None,
                };
                return Some(
                    RouteResponse {
                        status,
                        body: owned(v.str_at("body")),
                        content_type: owned(v.str_at("contentType")),
                        headers,
                    },
                );
            }
        },
        None => {},
    }
    match cmd.str_at("body") {
        Some(body) => Some(
            RouteResponse {
                status: None,
                body: Some(body.to_owned()),
                content_type: None,
                headers: None,
            },
        ),
        None => None,
    }
}

/// The texts that are not empty, in order.
pub open spec fn not_empty(list: Seq<Seq<char>>) -> Seq<Seq<char>>
    decreases list.len(),
{
    if list.len() == 0 {
        list
    } else if list.last().len() == 0 {
        not_empty(list.drop_last())
    } else {
        not_empty(list.drop_last()).push(list.last())
    }
}

fn keep_not_empty(list: Vec<String>) -> (r: Vec<String>)
    ensures
        texts(r@) == not_empty(texts(list@)),
{
    let mut out: Vec<String> = Vec::new();
    let ghost t = texts(list@);
    assert(texts(out@) == not_empty(t.take(0)));
    for i in 0..list.len()
        invariant
            t == texts(list@),
            texts(out@) == not_empty(t.take(i as int)),
    {
        proof {
            assert(t.take(i + 1).drop_last() == t.take(i as int));
            assert(t.take(i + 1).last() == list@[i as int]@);
        }
        if !list[i].as_str().is_empty() {
            let ghost before = texts(out@);
            out.push(list[i].clone());
            assert(texts(out@) == before.push(list@[i as int]@));
        }
    }
    assert(t.take(list@.len() as int) == t);
    out
}

/// The resource types that a command names under `resourceType` or else under
/// `resourceTypes`: a list of strings, or one string with commas, of which the parts
/// count without the white space around them. Empty ones do not count.
pub open spec fn named_types(cmd: JsonV) -> Seq<Seq<char>> {
    let value = match cmd.get("resourceType"@) {
        Some(v) => Some(v),
        None => cmd.get("resourceTypes"@),
    };
    match value {
        Some(JsonV::Str(s)) => trimmed_items(pieces(s, seq![','])),
        Some(JsonV::Array(items)) => not_empty(string_items(items)),
        _ => Seq::<Seq<char>>::empty(),
    }
}

fn types_from_command(cmd: &Json) -> (r: Vec<String>)
    ensures
        texts(r@) == named_types(cmd.view()),
{
    let value = match cmd.get("resourceType") {
        Some(v) => Some(v),
        None => cmd.get("resourceTypes"),
    };
    let none: Vec<String> = Vec::new();
    assert(texts(none@) == Seq::<Seq<char>>::empty());
    match value {
        Some(v) => {
            match v.as_str() {
                Some(s) => {
                    let seps: Vec<char> = vec![','];
                    assert(seps@ == seq![',']);
                    split_trimmed(s, &seps)
                },
                None => match v.strings() {
                    Some(list) => keep_not_empty(list),
                    None => none,
                },
            }
        },
        None => none,
    }
}

/// The route that a command describes. It has to name a URL pattern.
pub open spec fn described_route(cmd: JsonV) -> Result<RouteV, Seq<char>> {
    match cmd.str_at("url"@) {
        Some(url) => Ok(
            RouteV {
                url_pattern: url,
                response: described_response(cmd),
                abort: or_else(cmd.bool_at("abort"@), false),
                resource_types: named_types(cmd),
            },
        ),
        None => Err("Missing 'url' parameter"@),
    }
}

/// The route that a command describes.
pub fn route_from_command(cmd: &Json) -> (r: Result<RouteEntry, String>)
    ensures
        match described_route(cmd.view()) {
            Ok(route) => r is Ok && r->Ok_0.view() == route,
            Err(e) => r is Err && r->Err_0@ == e,
        },
{
    match cmd.str_at("url") {
        Some(url) => Ok(
            RouteEntry {
                url_pattern: url.to_owned(),
                response: parse_route_response(cmd),
                abort: match cmd.bool_at("abort") {
                    Some(b) => b,
                    None => false,
                },
                resource_types: types_from_command(cmd),
            },
        ),
        None => Err("Missing 'url' parameter".to_owned()),
    }
}

/// What else than routes asks for requests to be intercepted.
#[derive(Clone, Copy, PartialEq, Eq, Structural, Debug)]
pub struct Interception {
    pub domain_filter: bool,
    pub origin_headers: bool,
    pub proxy_credentials: bool,
}

impl Interception {
    /// Every request has to be intercepted.
    pub open spec fn of_all(self) -> bool {
        self.domain_filter || self.origin_headers || self.proxy_credentials
    }
}

/// The patterns of the routes, each with its runs of `*` shortened.
pub open spec fn route_patterns(routes: Seq<RouteV>) -> Seq<Seq<char>> {
    routes.map_values(|r: RouteV| collapsed(r.url_pattern))
}

/// The patterns of the requests to intercept: those of the routes, and the one for
/// all requests where something else asks for it and no route has it already.
pub open spec fn fetch_patterns(routes: Seq<RouteV>, flags: Interception) -> Seq<Seq<char>> {
    let own = route_patterns(routes);
    if flags.of_all() && !own.contains("*"@) {
        own.push("*"@)
    } else {
        own
    }
}

/// The patterns of the requests to intercept.
pub fn build_fetch_patterns(routes: &Vec<RouteEntry>, flags: Interception) -> (r: Vec<String>)
    ensures
        texts(r@) == fetch_patterns(routes_view(routes@), flags),
{
    let mut out: Vec<String> = Vec::new();
    let mut found: bool = false;
    let ghost own = route_patterns(routes_view(routes@));
    assert(texts(out@) == own.take(0));
    for i in 0..routes.len()
        invariant
            own == route_patterns(routes_view(routes@)),
            texts(out@) == own.take(i as int),
            found == own.take(i as int).contains("*"@),
    {
        let p = collapse_wildcards(&routes[i].url_pattern);
        proof {
            assert(own[i as int] == p@);
            assert(own.take(i + 1) == own.take(i as int).push(p@));
            if own.take(i as int).contains("*"@) {
                let k = choose|k: int|
                    0 <= k < own.take(i as int).len() && own.take(i as int)[k] == "*"@;
                assert(own.take(i + 1)[k] == "*"@);
            }
            if p@ == "*"@ {
                assert(own.take(i + 1)[i as int] == "*"@);
            }
        }
        let star = same(&p, "*");
        let ghost before = texts(out@);
        out.push(p);
        assert(texts(out@) == before.push(p@));
        proof {
            if own.take(i + 1).contains("*"@) && !star {
                let more = own.take(i + 1);
                let k = choose|k: int| 0 <= k < more.len() && more[k] == "*"@;
                assert(own.take(i as int)[k] == "*"@);
            }
        }
        found = found || star;
    }
    assert(own.take(routes@.len() as int) == own);
    if (flags.domain_filter || flags.origin_headers || flags.proxy_credentials) && !found {
        let ghost before = texts(out@);
        let star = "*".to_owned();
        out.push(star);
        assert(texts(out@) == before.push("*"@));
    }
    out
}

/// The parameters that turn interception on: the patterns, and the request to be
/// asked for proxy credentials where there are some.
pub open spec fn enable_params(patterns: Seq<Seq<char>>, proxy_credentials: bool) -> JsonV {
    let list = JsonV::Array(
        patterns.map_values(|p: Seq<char>| JsonV::Object(seq![("urlPattern"@, JsonV::Str(p))])),
    );
    if proxy_credentials {
        JsonV::Object(seq![("patterns"@, list), ("handleAuthRequests"@, JsonV::Bool(true))])
    } else {
        JsonV::Object(seq![("patterns"@, list)])
    }
}

/// The parameters that turn interception on.
pub fn build_fetch_enable_params(patterns: &Vec<String>, proxy_credentials: bool) -> (r: Json)
    ensures
        r.view() == enable_params(texts(patterns@), proxy_credentials),
{
    let mut items = Items::new();
    let ghost all = texts(patterns@).map_values(
        |p: Seq<char>| JsonV::Object(seq![("urlPattern"@, JsonV::Str(p))]),
    );
    assert(items.view() == all.take(0));
    for i in 0..patterns.len()
        invariant
            all == texts(patterns@).map_values(
                |p: Seq<char>| JsonV::Object(seq![("urlPattern"@, JsonV::Str(p))]),
            ),
            items.view() == all.take(i as int),
    {
        let f = Fields::new().with("urlPattern", Json::text(&patterns[i]));
        assert(f.view() == seq![("urlPattern"@, JsonV::Str(patterns@[i as int]@))]);
        items.push(f.done());
        assert(all.take(i + 1) == all.take(i as int).push(all[i as int]));
    }
    assert(all.take(patterns@.len() as int) == all);
    let f = Fields::new().with("patterns", items.done());
    let f = if proxy_credentials {
        f.with("handleAuthRequests", Json::truth(true))
    } else {
        f
    };
    proof {
        let list = JsonV::Array(all);
        if proxy_credentials {
            assert(f.view() == seq![
                ("patterns"@, list),
                ("handleAuthRequests"@, JsonV::Bool(true)),
            ]);
        } else {
            assert(f.view() == seq![("patterns"@, list)]);
        }
    }
    f.done()
}

/// The command that brings the browser's interception in line with the routes.
pub open spec fn interception_command(
    routes: Seq<RouteV>,
    flags: Interception,
    session: Seq<char>,
) -> crate::cdp::CommandV {
    command(
        "Fetch.enable"@,
        enable_params(fetch_patterns(routes, flags), flags.proxy_credentials),
        session,
    )
}

/// Adds the route that a command describes, behind the others, and turns
/// interception on for it. Where the command is refused the routes stay as they are.
pub fn handle_route(
    cmd: &Json,
    browser: &Browser,
    routes: &mut Vec<RouteEntry>,
    flags: Interception,
) -> (r: Result<Exchange, String>)
    ensures
        match browser.session_view() {
            Err(e) => outcome(r) == Err::<ExchangeV, Seq<char>>(e) && *final(routes) == *old(
                routes,
            ),
            Ok(session) => match described_route(cmd.view()) {
                Err(e) => outcome(r) == Err::<ExchangeV, Seq<char>>(e) && *final(routes) == *old(
                    routes,
                ),
                Ok(route) => {
                    &&& routes_view(final(routes)@) == routes_view(old(routes)@).push(route)
                    &&& outcome(r) == Ok::<ExchangeV, Seq<char>>(
                        ExchangeV {
                            command: interception_command(
                                routes_view(final(routes)@),
                                flags,
                                session,
                            ),
                            reply: JsonV::Object(
                                seq![("routed"@, JsonV::Str(route.url_pattern))],
                            ),
                        },
                    )
                },
            },
        },
{
    let session = match browser.session() {
        Ok(s) => s,
        Err(e) => {
            return Err(e);
        },
    };
    let route = match route_from_command(cmd) {
        Ok(route) => route,
        Err(e) => {
            return Err(e);
        },
    };
    let reply = Fields::new().with("routed", Json::text(&route.url_pattern));
    assert(reply.view() == seq![("routed"@, JsonV::Str(route.url_pattern@))]);
    let ghost before = routes_view(routes@);
    routes.push(route);
    assert(routes_view(routes@) == before.push(route.view()));
    let patterns = build_fetch_patterns(routes, flags);
    let params = build_fetch_enable_params(&patterns, flags.proxy_credentials);
    Ok(Exchange { command: CdpCommand::new("Fetch.enable", params, &session), reply: reply.done() })
}

/// The routes whose pattern is not the given one, in order.
pub open spec fn routes_without(routes: Seq<RouteV>, pattern: Seq<char>) -> Seq<RouteV>
    decreases routes.len(),
{
    if routes.len() == 0 {
        routes
    } else if routes.last().url_pattern == pattern {
        routes_without(routes.drop_last(), pattern)
    } else {
        routes_without(routes.drop_last(), pattern).push(routes.last())
    }
}

/// The routes that stay after taking away those with a pattern, or all.
pub open spec fn routes_left(routes: Seq<RouteV>, pattern: Option<Seq<char>>) -> Seq<RouteV> {
    match pattern {
        Some(p) => routes_without(routes, p),
        None => Seq::<RouteV>::empty(),
    }
}

/// Takes away every route with the given pattern; the others keep their order.
pub fn remove_routes(routes: &mut Vec<RouteEntry>, pattern: &str)
    ensures
        routes_view(final(routes)@) == routes_without(routes_view(old(routes)@), pattern@),
{
    let ghost all = routes@;
    let ghost v = routes_view(all);
    let ghost mut seen: int = 0;
    let mut i: usize = 0;
    assert(routes_view(routes@.take(0)) == routes_without(v.take(0), pattern@));
    while i < routes.len()
        invariant
            v == routes_view(all),
            0 <= seen <= all.len(),
            i <= routes@.len(),
            routes@.skip(i as int) == all.skip(seen),
            routes_view(routes@.take(i as int)) == routes_without(v.take(seen), pattern@),
        decreases routes@.len() - i,
    {
        let ghost now = routes@;
        proof {
            assert(now.skip(i as int)[0] == all.skip(seen)[0]);
            assert(now.skip(i as int).len() == all.skip(seen).len());
            assert(now.skip(i as int).skip(1) == all.skip(seen).skip(1));
            assert(all.skip(seen).skip(1) == all.skip(seen + 1));
            assert(v.take(seen + 1).drop_last() == v.take(seen));
            assert(v.take(seen + 1).last() == now[i as int].view());
        }
        if same(&routes[i].url_pattern, pattern) {
            routes.remove(i);
            proof {
                assert(routes@.take(i as int) == now.take(i as int));
                assert(routes@.skip(i as int) == now.skip(i as int).skip(1));
            }
        } else {
            proof {
                assert(routes_view(now.take(i + 1)) == routes_view(now.take(i as int)).push(
                    now[i as int].view(),
                ));
                assert(now.skip(i + 1) == now.skip(i as int).skip(1));
            }
            i = i + 1;
        }
        proof {
            seen = seen + 1;
        }
    }
    proof {
        assert(routes@.skip(i as int).len() == 0);
        assert(seen == all.len());
        assert(v.take(seen) == v);
        assert(routes@.take(i as int) == routes@);
    }
}

/// Takes away the routes with the pattern that a command names, or all where it
/// names none, and brings interception in line with what is left: off where nothing
/// is left to intercept. Without an active session the routes stay as they are.
pub fn handle_unroute(
    cmd: &Json,
    browser: &Browser,
    routes: &mut Vec<RouteEntry>,
    flags: Interception,
) -> (r: Result<Exchange, String>)
    ensures
        ({
            let pattern = cmd.view().str_at("url"@);
            let left = routes_left(routes_view(old(routes)@), pattern);
            match browser.session_view() {
                Err(e) => outcome(r) == Err::<ExchangeV, Seq<char>>(e) && *final(routes) == *old(
                    routes,
                ),
                Ok(session) => {
                    &&& routes_view(final(routes)@) == left
                    &&& outcome(r) == Ok::<ExchangeV, Seq<char>>(
                        ExchangeV {
                            command: if fetch_patterns(left, flags).len() == 0 {
                                bare_command("Fetch.disable"@, session)
                            } else {
                                interception_command(left, flags, session)
                            },
                            reply: JsonV::Object(
                                seq![("unrouted"@, JsonV::Str(or_else(pattern, "all"@)))],
                            ),
                        },
                    )
                },
            }
        }),
{
    let session = match browser.session() {
        Ok(s) => s,
        Err(e) => {
            return Err(e);
        },
    };
    let url = cmd.str_at("url");
    match url {
        Some(pattern) => {
            remove_routes(routes, pattern);
        },
        None => {
            routes.clear();
            assert(routes_view(routes@) == Seq::<RouteV>::empty());
        },
    }
    let label: &str = match url {
        Some(pattern) => pattern,
        None => "all",
    };
    let reply = Fields::new().with("unrouted", Json::text(label));
    assert(reply.view() == seq![("unrouted"@, JsonV::Str(label@))]);
    let patterns = build_fetch_patterns(routes, flags);
    assert(texts(patterns@).len() == patterns@.len());
    let command = if patterns.len() == 0 {
        CdpCommand::bare("Fetch.disable", &session)
    } else {
        let params = build_fetch_enable_params(&patterns, flags.proxy_credentials);
        CdpCommand::new("Fetch.enable", params, &session)
    };
    Ok(Exchange { command, reply: reply.done() })
}

/// Where something beside routes asks for interception, all requests are
/// intercepted.
pub proof fn law_all_requests_are_intercepted(routes: Seq<RouteV>, flags: Interception)
    requires
        flags.of_all(),
    ensures
        fetch_patterns(routes, flags).contains("*"@),
{
    let own = route_patterns(routes);
    if !own.contains("*"@) {
        assert(own.push("*"@)[own.len() as int] == "*"@);
    }
}

/// The requests that a route is for are intercepted.
pub proof fn law_every_route_is_intercepted(routes: Seq<RouteV>, flags: Interception, i: int)
    requires
        0 <= i < routes.len(),
    ensures
        fetch_patterns(routes, flags).contains(collapsed(routes[i].url_pattern)),
{
    let own = route_patterns(routes);
    assert(own[i] == collapsed(routes[i].url_pattern));
    assert(fetch_patterns(routes, flags)[i] == own[i]);
}

/// Interception is off exactly where there is no route and nothing else asks for it.
pub proof fn law_interception_is_off_when_unused(routes: Seq<RouteV>, flags: Interception)
    ensures
        fetch_patterns(routes, flags).len() == 0 <==> routes.len() == 0 && !flags.of_all(),
{
}

/// Taking the routes with a pattern away again undoes adding one, where there was
/// none with that pattern before.
pub proof fn law_unroute_undoes_route(routes: Seq<RouteV>, route: RouteV)
    requires
        forall|i: int| 0 <= i < routes.len() ==> (#[trigger] routes[i]).url_pattern
            != route.url_pattern,
    ensures
        routes_without(routes.push(route), route.url_pattern) == routes,
{
    assert(routes.push(route).drop_last() == routes);
    lemma_nothing_to_remove(routes, route.url_pattern);
}

proof fn lemma_nothing_to_remove(routes: Seq<RouteV>, pattern: Seq<char>)
    requires
        forall|i: int| 0 <= i < routes.len() ==> (#[trigger] routes[i]).url_pattern != pattern,
    ensures
        routes_without(routes, pattern) == routes,
    decreases routes.len(),
{
    if routes.len() > 0 {
        assert(routes[routes.len() - 1].url_pattern != pattern);
        assert forall|i: int| 0 <= i < routes.len() - 1 implies (
        #[trigger] routes.drop_last()[i]).url_pattern != pattern by {
            assert(routes[i].url_pattern != pattern);
        }
        lemma_nothing_to_remove(routes.drop_last(), pattern);
        assert(routes.drop_last().push(routes.last()) == routes);
    }
}

/// After taking a pattern away, no route has it, and every other route is still there.
pub proof fn law_unroute_removes_exactly(routes: Seq<RouteV>, pattern: Seq<char>, route: RouteV)
    ensures
        routes_without(routes, pattern).contains(route) <==> routes.contains(route)
            && route.url_pattern != pattern,
    decreases routes.len(),
{
    if routes.len() > 0 {
        let before = routes.drop_last();
        let last = routes.last();
        law_unroute_removes_exactly(before, pattern, route);
        let rest = routes_without(before, pattern);
        assert(routes == before.push(last));
        assert(routes.contains(route) <==> before.contains(route) || route == last) by {
            lemma_push_contains(before, last, route);
        }
        if last.url_pattern != pattern {
            lemma_push_contains(rest, last, route);
        }
    }
}

proof fn lemma_push_contains(list: Seq<RouteV>, last: RouteV, x: RouteV)
    ensures
        list.push(last).contains(x) <==> list.contains(x) || x == last,
{
    let more = list.push(last);
    if list.contains(x) {
        let k = choose|k: int| 0 <= k < list.len() && list[k] == x;
        assert(more[k] == x);
    }
    if x == last {
        assert(more[list.len() as int] == x);
    }
    if more.contains(x) {
        let k = choose|k: int| 0 <= k < more.len() && more[k] == x;
        if k < list.len() {
            assert(list[k] == x);
        }
    }
}

} // verus!
