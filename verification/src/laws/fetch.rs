//! What becomes of an intercepted request.
use vstd::prelude::*;
use vstd::string::*;
use vstd::utf8::*;

use crate::cdp::CdpCommand;
use crate::fetch::{
    decide_fetch, fetch_command, filter_decision, filter_host, headers_for, host_of, kept_headers,
    law_extra_headers_replace, law_first_acting_route_wins, law_other_headers_stay, merged_headers,
    names_header, opt_headers, origins_view, resolve_fetch_paused, response_headers, route_action,
    route_applies, routes_decision, FetchDecision, FetchPausedRequest, OriginHeaders,
};
use crate::glob::pattern_selects;
use crate::json::{fields_view, lemma_field_found, JsonV};
use crate::outside::{base64_text, encodable, opt_url, url_of, UrlParts};
use crate::routes::{routes_view, RouteEntry, RouteResponse, RouteV};
use crate::text::{equal_ignoring_case, pairs};

verus! {

/// The route is for the request: its pattern selects the URL, and it names the type of
/// the request or no type at all.
pub open spec fn is_for(route: RouteEntry, paused: FetchPausedRequest) -> bool {
    &&& pattern_selects(route.url_pattern@, paused.url@)
    &&& route.resource_types@.len() == 0 || exists|j: int|
        0 <= j < route.resource_types@.len() && equal_ignoring_case(
            (#[trigger] route.resource_types@[j])@,
            paused.resource_type@,
        )
}

/// The route does something to the requests that it is for.
pub open spec fn acts(route: RouteEntry) -> bool {
    route.abort || route.response is Some
}

/// The URL is on the web.
pub open spec fn on_web(url: UrlParts) -> bool {
    url.scheme@ == "http"@ || url.scheme@ == "https"@
}

/// The domain filter has nothing to say about the request: there is none, or the URL
/// cannot be read, or it is on the web and names no host or one that is allowed.
pub open spec fn filter_is_silent(url: Option<UrlParts>, filter: Option<bool>) -> bool {
    match (filter, url) {
        (Some(allowed), Some(u)) => on_web(u) && (u.host is None || allowed),
        _ => true,
    }
}

/// No route does anything to the request.
pub open spec fn no_route_acts(routes: Seq<RouteEntry>, paused: FetchPausedRequest) -> bool {
    forall|i: int|
        0 <= i < routes.len() ==> !(is_for(#[trigger] routes[i], paused) && acts(routes[i]))
}

proof fn lemma_is_for(route: RouteEntry, paused: FetchPausedRequest)
    ensures
        is_for(route, paused) == route_applies(route.view(), paused.url@, paused.resource_type@),
        acts(route) == (route_action(route.view()) is Some),
{
    let types = route.view().resource_types;
    assert(types.len() == route.resource_types@.len());
    assert forall|j: int| 0 <= j < types.len() implies #[trigger] types[j]
        == route.resource_types@[j]@ by {}
    if is_for(route, paused) && types.len() > 0 {
        let j = choose|j: int|
            0 <= j < route.resource_types@.len() && equal_ignoring_case(
                (#[trigger] route.resource_types@[j])@,
                paused.resource_type@,
            );
        assert(equal_ignoring_case(types[j], paused.resource_type@));
    }
    if route_applies(route.view(), paused.url@, paused.resource_type@) && types.len() > 0 {
        let j = choose|j: int|
            0 <= j < types.len() && equal_ignoring_case(
                #[trigger] types[j],
                paused.resource_type@,
            );
        assert(equal_ignoring_case(route.resource_types@[j]@, paused.resource_type@));
    }
}

proof fn lemma_no_decision(routes: Seq<RouteV>, url: Seq<char>, kind: Seq<char>)
    requires
        forall|i: int|
            0 <= i < routes.len() ==> !(route_applies(#[trigger] routes[i], url, kind)
                && route_action(routes[i]) is Some),
    ensures
        routes_decision(routes, url, kind) is None,
    decreases routes.len(),
{
    if routes.len() > 0 {
        assert(!(route_applies(routes[0], url, kind) && route_action(routes[0]) is Some));
        let rest = routes.skip(1);
        assert forall|i: int| 0 <= i < rest.len() implies !(route_applies(
            #[trigger] rest[i],
            url,
            kind,
        ) && route_action(rest[i]) is Some) by {
            assert(rest[i] == routes[i + 1]);
        }
        lemma_no_decision(rest, url, kind);
    }
}

proof fn lemma_first_route(
    url: Option<UrlParts>,
    filter: Option<bool>,
    routes: Seq<RouteEntry>,
    paused: FetchPausedRequest,
    k: int,
)
    requires
        filter_is_silent(url, filter),
        0 <= k < routes.len(),
        is_for(routes[k], paused),
        acts(routes[k]),
        forall|i: int|
            0 <= i < k ==> !(is_for(#[trigger] routes[i], paused) && acts(routes[i])),
    ensures
        filter_decision(opt_url(url), filter, paused.resource_type@) is None,
        routes_decision(routes_view(routes), paused.url@, paused.resource_type@)
            == route_action(routes[k].view()),
{
    let v = routes_view(routes);
    assert forall|i: int| 0 <= i < k implies !route_applies(
        #[trigger] v[i],
        paused.url@,
        paused.resource_type@,
    ) || route_action(v[i]) is None by {
        assert(v[i] == routes[i].view());
        lemma_is_for(routes[i], paused);
    }
    assert(v[k] == routes[k].view());
    lemma_is_for(routes[k], paused);
    law_first_acting_route_wins(v, paused.url@, paused.resource_type@, k);
}

/// The first route that is for a request and aborts makes it fail.
pub proof fn law_aborting_route_fails_the_request(
    url: &Option<UrlParts>,
    filter: Option<bool>,
    routes: &Vec<RouteEntry>,
    origins: &Vec<OriginHeaders>,
    paused: &FetchPausedRequest,
    r: FetchDecision,
    k: int,
)
    requires
        call_ensures(decide_fetch, (url, filter, routes, origins, paused), r),
        filter_is_silent(*url, filter),
        0 <= k < routes@.len(),
        is_for(routes@[k], *paused),
        routes@[k].abort,
        forall|i: int|
            0 <= i < k ==> !(is_for(#[trigger] routes@[i], *paused) && acts(routes@[i])),
    ensures
        r matches FetchDecision::Fail { reason } && reason@ == "Failed"@,
{
    lemma_first_route(*url, filter, routes@, *paused, k);
}

/// The first route that is for a request and has a response answers it, whichever parts
/// of the response are set: with its status, or 200; with its body, or an empty one; and
/// with its content type and its headers.
pub proof fn law_answering_route_answers_the_request(
    url: &Option<UrlParts>,
    filter: Option<bool>,
    routes: &Vec<RouteEntry>,
    origins: &Vec<OriginHeaders>,
    paused: &FetchPausedRequest,
    r: FetchDecision,
    k: int,
    resp: RouteResponse,
)
    requires
        call_ensures(decide_fetch, (url, filter, routes, origins, paused), r),
        filter_is_silent(*url, filter),
        0 <= k < routes@.len(),
        is_for(routes@[k], *paused),
        !routes@[k].abort,
        routes@[k].response == Some(resp),
        forall|i: int|
            0 <= i < k ==> !(is_for(#[trigger] routes@[i], *paused) && acts(routes@[i])),
    ensures
        r is Fulfill,
        resp.status matches Some(s) ==> r->Fulfill_status == s,
        resp.status is None ==> r->Fulfill_status == 200,
        resp.body matches Some(b) ==> r->Fulfill_body@ == b@,
        resp.body is None ==> r->Fulfill_body@.len() == 0,
        resp.content_type matches Some(t) ==> r->Fulfill_headers@.len() > 0
            && r->Fulfill_headers@[0].0@ == "Content-Type"@ && r->Fulfill_headers@[0].1@ == t@,
        r->Fulfill_headers@.len() == (if resp.content_type is Some {
            1int
        } else {
            0
        }) + (match resp.headers {
            Some(h) => h@.len() as int,
            None => 0,
        }),
        resp.headers matches Some(h) ==> forall|j: int|
            0 <= j < h@.len() ==> {
                let n = r->Fulfill_headers@.len() - h@.len() + j;
                &&& r->Fulfill_headers@[n].0@ == (#[trigger] h@[j]).0@
                &&& r->Fulfill_headers@[n].1@ == h@[j].1@
            },
{
    lemma_first_route(*url, filter, routes@, *paused, k);
    let sent = r->Fulfill_headers@;
    assert(pairs(sent) == response_headers(resp.view()));
    assert(pairs(sent).len() == sent.len());
    if sent.len() > 0 {
        assert(pairs(sent)[0] == (sent[0].0@, sent[0].1@));
    }
    if let Some(h) = resp.headers {
        assert forall|j: int| 0 <= j < h@.len() implies {
            let n = sent.len() - h@.len() + j;
            &&& sent[n].0@ == (#[trigger] h@[j]).0@
            &&& sent[n].1@ == h@[j].1@
        } by {
            let n = sent.len() - h@.len() + j;
            assert(pairs(sent)[n] == (sent[n].0@, sent[n].1@));
            assert(pairs(h@)[j] == (h@[j].0@, h@[j].1@));
            assert(pairs(sent)[n] == pairs(h@)[j]);
        }
    }
}

proof fn lemma_origin_decides(
    url: Option<UrlParts>,
    filter: Option<bool>,
    routes: Seq<RouteEntry>,
    paused: FetchPausedRequest,
)
    requires
        filter_is_silent(url, filter),
        no_route_acts(routes, paused),
    ensures
        filter_decision(opt_url(url), filter, paused.resource_type@) is None,
        routes_decision(routes_view(routes), paused.url@, paused.resource_type@) is None,
{
    let v = routes_view(routes);
    assert forall|i: int| 0 <= i < v.len() implies !(route_applies(
        #[trigger] v[i],
        paused.url@,
        paused.resource_type@,
    ) && route_action(v[i]) is Some) by {
        assert(v[i] == routes[i].view());
        lemma_is_for(routes[i], paused);
    }
    lemma_no_decision(v, paused.url@, paused.resource_type@);
}

proof fn lemma_headers_for(
    list: Seq<(Seq<char>, Seq<(Seq<char>, Seq<char>)>)>,
    origin: Seq<char>,
    k: int,
)
    requires
        0 <= k <= list.len(),
        forall|i: int| 0 <= i < k ==> (#[trigger] list[i]).0 != origin,
        k < list.len() ==> list[k].0 == origin,
    ensures
        headers_for(list, origin) == if k < list.len() {
            Some(list[k].1)
        } else {
            None
        },
    decreases k,
{
    if k > 0 {
        assert(list[0].0 != origin);
        let rest = list.skip(1);
        assert forall|i: int| 0 <= i < k - 1 implies (#[trigger] rest[i]).0 != origin by {
            assert(rest[i] == list[i + 1]);
        }
        lemma_headers_for(rest, origin, k - 1);
    }
}

/// A request that neither the filter nor a route does anything to goes on as it is, where
/// no headers belong to its origin.
pub proof fn law_other_requests_go_on(
    url: &Option<UrlParts>,
    filter: Option<bool>,
    routes: &Vec<RouteEntry>,
    origins: &Vec<OriginHeaders>,
    paused: &FetchPausedRequest,
    r: FetchDecision,
)
    requires
        call_ensures(decide_fetch, (url, filter, routes, origins, paused), r),
        filter_is_silent(*url, filter),
        no_route_acts(routes@, *paused),
        *url matches Some(u) ==> forall|i: int|
            0 <= i < origins@.len() ==> (#[trigger] origins@[i]).origin@ != u.origin@,
    ensures
        r is Continue,
{
    lemma_origin_decides(*url, filter, routes@, *paused);
    if let Some(u) = *url {
        let list = origins_view(origins@);
        assert forall|i: int| 0 <= i < list.len() implies (#[trigger] list[i]).0
            != u.origin@ by {
            assert(list[i].0 == origins@[i].origin@);
        }
        lemma_headers_for(list, u.origin@, list.len() as int);
    }
}

/// A request that neither the filter nor a route does anything to goes on with the
/// headers that belong to its origin at the end of its own: these are all there but for
/// the ones that are replaced, and no others.
pub proof fn law_origin_headers_are_sent(
    url: &Option<UrlParts>,
    filter: Option<bool>,
    routes: &Vec<RouteEntry>,
    origins: &Vec<OriginHeaders>,
    paused: &FetchPausedRequest,
    r: FetchDecision,
    k: int,
)
    requires
        call_ensures(decide_fetch, (url, filter, routes, origins, paused), r),
        filter_is_silent(*url, filter),
        no_route_acts(routes@, *paused),
        *url is Some,
        0 <= k < origins@.len(),
        origins@[k].origin@ == (*url)->Some_0.origin@,
        forall|i: int|
            0 <= i < k ==> (#[trigger] origins@[i]).origin@ != (*url)->Some_0.origin@,
    ensures
        r is ContinueWith,
        ({
            let sent = pairs(r->ContinueWith_headers@);
            let extra = pairs(origins@[k].headers@);
            let n = sent.len() - extra.len();
            &&& n >= 0
            &&& sent.skip(n) == extra
            &&& paused.request_headers is None ==> n == 0
            &&& paused.request_headers matches Some(own) ==> {
                &&& forall|i: int|
                    0 <= i < n ==> !replaced(extra, (#[trigger] sent[i]).0) && fields_view(
                        own@,
                    ).contains((sent[i].0, JsonV::Str(sent[i].1)))
                &&& forall|name: Seq<char>, value: Seq<char>|
                    #[trigger] fields_view(own@).contains((name, JsonV::Str(value))) && !replaced(
                        extra,
                        name,
                    ) ==> sent.contains((name, value))
            }
        }),
{
    lemma_origin_decides(*url, filter, routes@, *paused);
    let u = (*url)->Some_0;
    let list = origins_view(origins@);
    assert(list[k] == (origins@[k].origin@, pairs(origins@[k].headers@)));
    assert forall|i: int| 0 <= i < k implies (#[trigger] list[i]).0 != u.origin@ by {
        assert(list[i].0 == origins@[i].origin@);
    }
    lemma_headers_for(list, u.origin@, k);
    let sent = pairs(r->ContinueWith_headers@);
    let extra = pairs(origins@[k].headers@);
    assert(sent == merged_headers(opt_headers(paused.request_headers), extra));
    let n = sent.len() - extra.len();
    match paused.request_headers {
        None => {
            assert(sent.skip(0) == extra);
        },
        Some(own) => {
            let o = fields_view(own@);
            let kept = kept_headers(o, extra);
            assert(n == kept.len());
            assert(sent.skip(n) == extra);
            assert forall|i: int| 0 <= i < n implies !replaced(extra, (#[trigger] sent[i]).0)
                && o.contains((sent[i].0, JsonV::Str(sent[i].1))) by {
                law_extra_headers_replace(o, extra, i);
                assert(!names_header(extra, sent[i].0));
                if replaced(extra, sent[i].0) {
                    lemma_replaced(extra, sent[i].0);
                }
            }
            assert forall|name: Seq<char>, value: Seq<char>|
                #[trigger] o.contains((name, JsonV::Str(value))) && !replaced(
                    extra,
                    name,
                ) implies sent.contains((name, value)) by {
                lemma_replaced(extra, name);
                law_other_headers_stay(o, extra, name, value);
            }
        },
    }
}

/// Some of the headers takes the place of one with the given name.
pub open spec fn replaced(extra: Seq<(Seq<char>, Seq<char>)>, name: Seq<char>) -> bool {
    exists|i: int| 0 <= i < extra.len() && equal_ignoring_case((#[trigger] extra[i]).0, name)
}

proof fn lemma_replaced(extra: Seq<(Seq<char>, Seq<char>)>, name: Seq<char>)
    ensures
        replaced(extra, name) == names_header(extra, name),
{
    if replaced(extra, name) {
        let i = choose|i: int|
            0 <= i < extra.len() && equal_ignoring_case((#[trigger] extra[i]).0, name);
        assert(equal_ignoring_case(extra[i].0, name));
    }
    if names_header(extra, name) {
        let i = choose|i: int|
            0 <= i < extra.len() && equal_ignoring_case((#[trigger] extra[i]).0, name);
        assert(equal_ignoring_case(extra[i].0, name));
    }
}

/// A host on the web that the filter does not allow is not reached, whatever the routes
/// say: a document is answered with a page that names the host, and anything else fails.
pub proof fn law_filter_blocks_the_host(
    url: &Option<UrlParts>,
    routes: &Vec<RouteEntry>,
    origins: &Vec<OriginHeaders>,
    paused: &FetchPausedRequest,
    r: FetchDecision,
)
    requires
        call_ensures(decide_fetch, (url, Some(false), routes, origins, paused), r),
        *url matches Some(u) && on_web(u) && u.host is Some,
    ensures
        equal_ignoring_case(paused.resource_type@, "document"@) ==> {
            &&& r is Fulfill
            &&& r->Fulfill_status == 403
            &&& pairs(r->Fulfill_headers@) == seq![("Content-Type"@, "text/html"@)]
            &&& r->Fulfill_body@ == "<html><body><h1>Blocked</h1><p>Navigation to "@
                + (*url)->Some_0.host->Some_0@
                + " is not allowed by domain filter.</p></body></html>"@
        },
        !equal_ignoring_case(paused.resource_type@, "document"@) ==> (r matches FetchDecision::Fail {
            reason,
        } && reason@ == "BlockedByClient"@),
{
}

/// Where there is a filter, a document that is not on the web fails and anything else
/// that is not goes on, whatever the filter and the routes say.
pub proof fn law_filter_keeps_documents_on_the_web(
    url: &Option<UrlParts>,
    filter: Option<bool>,
    routes: &Vec<RouteEntry>,
    origins: &Vec<OriginHeaders>,
    paused: &FetchPausedRequest,
    r: FetchDecision,
)
    requires
        call_ensures(decide_fetch, (url, filter, routes, origins, paused), r),
        filter is Some,
        *url matches Some(u) && !on_web(u),
    ensures
        equal_ignoring_case(paused.resource_type@, "document"@) ==> (r matches FetchDecision::Fail {
            reason,
        } && reason@ == "BlockedByClient"@),
        !equal_ignoring_case(paused.resource_type@, "document"@) ==> r is Continue,
{
}

/// The filter is asked about the host of a URL on the web, and about no other.
pub proof fn law_filter_is_asked_about_the_host(url: Option<UrlParts>, r: Option<String>)
    requires
        call_ensures(host_of, (url,), r),
    ensures
        url is None ==> r is None,
        url matches Some(u) ==> {
            &&& !on_web(u) ==> r is None
            &&& on_web(u) && u.host is None ==> r is None
            &&& on_web(u) && u.host is Some ==> r is Some && r->Some_0@ == u.host->Some_0@
        },
{
}

/// A request is resolved by carrying out what is decided about it, with its URL read.
pub proof fn law_request_is_resolved_as_decided(
    filter: Option<bool>,
    routes: &Vec<RouteEntry>,
    origins: &Vec<OriginHeaders>,
    paused: &FetchPausedRequest,
    url: &Option<UrlParts>,
    d: FetchDecision,
    c: Option<CdpCommand>,
    r: Option<CdpCommand>,
)
    requires
        opt_url(*url) == url_of(paused.url@),
        call_ensures(decide_fetch, (url, filter, routes, origins, paused), d),
        call_ensures(fetch_command, (&d, paused), c),
        call_ensures(resolve_fetch_paused, (filter, routes, origins, paused), r),
    ensures
        r is Some <==> c is Some,
        r is Some ==> r->Some_0.view() == c->Some_0.view(),
{
}

/// The list holds an object with name and value for each header, in order.
pub open spec fn lists_headers(v: JsonV, headers: Seq<(String, String)>) -> bool {
    v matches JsonV::Array(items) && items.len() == headers.len() && forall|i: int|
        0 <= i < items.len() ==> (#[trigger] items[i]).str_at("name"@) == Some(headers[i].0@)
            && items[i].str_at("value"@) == Some(headers[i].1@)
}

/// The list of some headers holds an object with name and value for each.
pub proof fn lemma_lists_headers(headers: Seq<(String, String)>)
    ensures
        lists_headers(crate::fetch::headers_json(pairs(headers)), headers),
{
    let items = crate::fetch::headers_json(pairs(headers))->Array_0;
    reveal_strlit("name");
    reveal_strlit("value");
    assert("name"@.len() != "value"@.len());
    assert forall|i: int| 0 <= i < items.len() implies (#[trigger] items[i]).str_at("name"@)
        == Some(headers[i].0@) && items[i].str_at("value"@) == Some(headers[i].1@) by {
        let f = seq![("name"@, JsonV::Str(headers[i].0@)), ("value"@, JsonV::Str(headers[i].1@))];
        assert(pairs(headers)[i] == (headers[i].0@, headers[i].1@));
        assert(items[i] == JsonV::Object(f));
        lemma_field_found(f, "name"@, 0);
        lemma_field_found(f, "value"@, 1);
    }
}

proof fn lemma_command_keys()
    ensures
        "requestId"@ != "errorReason"@,
        "requestId"@ != "headers"@,
        "requestId"@ != "responseCode"@,
        "requestId"@ != "responseHeaders"@,
        "requestId"@ != "body"@,
        "responseCode"@ != "responseHeaders"@,
        "responseCode"@ != "body"@,
        "responseHeaders"@ != "body"@,
{
    reveal_strlit("requestId");
    reveal_strlit("errorReason");
    reveal_strlit("headers");
    reveal_strlit("responseCode");
    reveal_strlit("responseHeaders");
    reveal_strlit("body");
    assert("requestId"@.len() == 9 && "errorReason"@.len() == 11 && "headers"@.len() == 7
        && "responseCode"@.len() == 12 && "responseHeaders"@.len() == 15 && "body"@.len() == 4);
}

/// The command about a request goes to its session and names it, and carries out the
/// decision: it lets the request fail with the reason, lets it go on, with other headers
/// where there are some, or answers it with the status, the headers and the body.
pub proof fn law_command_carries_the_decision_out(
    d: &FetchDecision,
    paused: &FetchPausedRequest,
    r: Option<CdpCommand>,
)
    requires
        call_ensures(fetch_command, (d, paused), r),
    ensures
        r is None ==> (d matches FetchDecision::Fulfill { body, .. } && !encodable(
            encode_utf8(body@),
        )),
        r matches Some(c) ==> {
            let p = c.view().params->Some_0;
            &&& c.view().params is Some
            &&& c.view().session == Some(paused.session_id@)
            &&& p.str_at("requestId"@) == Some(paused.request_id@)
            &&& match *d {
                FetchDecision::Fail { reason } => c.method@ == "Fetch.failRequest"@ && p.str_at(
                    "errorReason"@,
                ) == Some(reason@),
                FetchDecision::Continue => c.method@ == "Fetch.continueRequest"@ && p.get(
                    "headers"@,
                ) is None,
                FetchDecision::ContinueWith { headers } => c.method@ == "Fetch.continueRequest"@
                    && p.get("headers"@) is Some && lists_headers(
                    p.get("headers"@)->Some_0,
                    headers@,
                ),
                FetchDecision::Fulfill { status, headers, body } => c.method@
                    == "Fetch.fulfillRequest"@ && p.u64_at("responseCode"@) == Some(status as u64)
                    && p.get("responseHeaders"@) is Some && lists_headers(
                    p.get("responseHeaders"@)->Some_0,
                    headers@,
                ) && p.str_at("body"@) == Some(base64_text(encode_utf8(body@))),
            }
        },
{
    lemma_command_keys();
    if let Some(c) = r {
        let f = c.view().params->Some_0->Object_0;
        lemma_field_found(f, "requestId"@, 0);
        match *d {
            FetchDecision::Fail { reason } => {
                lemma_field_found(f, "errorReason"@, 1);
            },
            FetchDecision::Continue => {
                lemma_field_found(f, "headers"@, 1);
            },
            FetchDecision::ContinueWith { headers } => {
                lemma_field_found(f, "headers"@, 1);
                lemma_lists_headers(headers@);
            },
            FetchDecision::Fulfill { status, headers, body } => {
                lemma_field_found(f, "responseCode"@, 1);
                lemma_field_found(f, "responseHeaders"@, 2);
                lemma_field_found(f, "body"@, 3);
                lemma_lists_headers(headers@);
            },
        }
    }
}

/// The host that the filter is asked about is that of the URL as it is read.
pub proof fn law_filter_is_asked_about_the_url(
    text: &str,
    url: Option<UrlParts>,
    r: Option<String>,
    s: Option<String>,
)
    requires
        opt_url(url) == url_of(text@),
        call_ensures(filter_host, (text,), r),
        call_ensures(host_of, (url,), s),
    ensures
        r is Some <==> s is Some,
        r is Some ==> r->Some_0@ == s->Some_0@,
{
    assert(crate::json::opt_string(r) == crate::json::opt_string(s));
}

} // verus!
