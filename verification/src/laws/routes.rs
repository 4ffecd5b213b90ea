//! Routes: which requests they are for, and when they are intercepted.
use vstd::prelude::*;
use vstd::string::*;

use crate::cdp::{Browser, Exchange};
use crate::glob::{
    collapse_wildcards, collapsed, glob_matches, law_collapse_selects_the_same,
    law_collapsed_has_no_run, pattern_selects, route_url_matches,
};
use crate::json::{lemma_field_found, opt_string, string_fields, Json, JsonV};
use crate::laws::cdp::refusal;
use crate::laws::options::{lemma_item_kept, lemma_item_source, lemma_string_items};
use crate::routes::{
    build_fetch_patterns, fetch_patterns, handle_route, handle_unroute, interception_command,
    law_all_requests_are_intercepted, law_interception_is_off_when_unused,
    law_unroute_removes_exactly, named_types, not_empty, route_from_command, route_patterns,
    routes_view, Interception, RouteEntry, RouteV,
};
use crate::text::{has_substring, pairs, pieces, texts, trimmed};

verus! {

/// A route has the pattern that its command names, without which it is refused, and
/// aborts where the command says so.
pub proof fn law_route_has_the_named_pattern(cmd: &Json, r: Result<RouteEntry, String>)
    requires
        call_ensures(route_from_command, (cmd,), r),
    ensures
        r is Ok <==> cmd.view().str_at("url"@) is Some,
        r matches Ok(route) ==> Some(route.url_pattern@) == cmd.view().str_at("url"@) && (
        route.abort <==> cmd.view().bool_at("abort"@) == Some(true)),
        r matches Err(e) ==> e@ == "Missing 'url' parameter"@,
{
}

/// A route answers as its command describes: with what stands under `response`, unless
/// that is null; or else with the bare body; it has no answer where there is neither.
pub proof fn law_route_answers_as_described(
    cmd: &Json,
    r: Result<RouteEntry, String>,
    name: Seq<char>,
    value: Seq<char>,
)
    requires
        call_ensures(route_from_command, (cmd,), r),
        r is Ok,
    ensures
        ({
            let c = cmd.view();
            let route = r->Ok_0;
            let described = c.get("response"@) is Some && !(c.get("response"@)->Some_0 is Null);
            &&& described ==> {
                let v = c.get("response"@)->Some_0;
                let a = route.response->Some_0;
                &&& route.response is Some
                &&& v.u64_at("status"@) is None ==> a.status is None
                &&& v.u64_at("status"@) matches Some(n) ==> a.status == Some(n as u16)
                &&& opt_string(a.body) == v.str_at("body"@)
                &&& opt_string(a.content_type) == v.str_at("contentType"@)
                &&& a.headers is Some <==> (v.get("headers"@) matches Some(JsonV::Object(_)))
                &&& a.headers matches Some(h) ==> (pairs(h@).contains((name, value)) <==> v.get(
                    "headers"@,
                )->Some_0->Object_0.contains((name, JsonV::Str(value))))
            }
            &&& !described && c.str_at("body"@) is Some ==> {
                let a = route.response->Some_0;
                &&& route.response is Some
                &&& opt_string(a.body) == c.str_at("body"@)
                &&& a.status is None && a.content_type is None && a.headers is None
            }
            &&& !described && c.str_at("body"@) is None ==> route.response is None
        }),
{
    if let Some(v) = cmd.view().get("response"@) {
        if let Some(JsonV::Object(fields)) = v.get("headers"@) {
            lemma_string_fields(fields, name, value);
        }
    }
}

proof fn lemma_string_fields(fields: Seq<(Seq<char>, JsonV)>, name: Seq<char>, value: Seq<char>)
    ensures
        string_fields(fields).contains((name, value)) <==> fields.contains(
            (name, JsonV::Str(value)),
        ),
    decreases fields.len(),
{
    if fields.len() > 0 {
        let before = fields.drop_last();
        let list = string_fields(before);
        let all = string_fields(fields);
        let x = (name, value);
        let y = (name, JsonV::Str(value));
        lemma_string_fields(before, name, value);
        if fields.contains(y) {
            let k = choose|k: int| 0 <= k < fields.len() && fields[k] == y;
            if k < before.len() {
                assert(before[k] == y);
                let j = choose|j: int| 0 <= j < list.len() && list[j] == x;
                assert(all[j] == x);
            } else {
                assert(all[list.len() as int] == x);
            }
        }
        if all.contains(x) {
            let j = choose|j: int| 0 <= j < all.len() && all[j] == x;
            if j < list.len() {
                assert(list[j] == x);
                let k = choose|k: int| 0 <= k < before.len() && before[k] == y;
                assert(fields[k] == y);
            } else {
                assert(fields[fields.len() - 1] == y);
            }
        }
    }
}

/// The value under which a command names resource types.
pub open spec fn types_value(cmd: JsonV) -> Option<JsonV> {
    if cmd.get("resourceType"@) is Some {
        cmd.get("resourceType"@)
    } else {
        cmd.get("resourceTypes"@)
    }
}

/// A route is for the resource types that its command names: those in a list that are not
/// empty, or those between the commas of a text, without the white space around them. It
/// is for all where the command names none.
pub proof fn law_route_is_for_the_named_types(
    cmd: &Json,
    r: Result<RouteEntry, String>,
    kind: Seq<char>,
)
    requires
        call_ensures(route_from_command, (cmd,), r),
        r is Ok,
    ensures
        types_value(cmd.view()) is None ==> r->Ok_0.resource_types@.len() == 0,
        types_value(cmd.view()) matches Some(JsonV::Array(items)) ==> (texts(
            r->Ok_0.resource_types@,
        ).contains(kind) <==> kind.len() > 0 && items.contains(JsonV::Str(kind))),
        types_value(cmd.view()) matches Some(JsonV::Str(s)) ==> (texts(
            r->Ok_0.resource_types@,
        ).contains(kind) <==> kind.len() > 0 && exists|j: int|
            0 <= j < pieces(s, seq![',']).len() && trimmed(#[trigger] pieces(s, seq![','])[j])
                == kind),
        !(types_value(cmd.view()) matches Some(JsonV::Array(_))) && !(types_value(
            cmd.view(),
        ) matches Some(JsonV::Str(_))) ==> r->Ok_0.resource_types@.len() == 0,
{
    let t = texts(r->Ok_0.resource_types@);
    assert(t == named_types(cmd.view()));
    assert(t.len() == r->Ok_0.resource_types@.len());
    match types_value(cmd.view()) {
        Some(JsonV::Array(items)) => {
            lemma_string_items(items, kind);
            lemma_not_empty(string_items_of(items), kind);
        },
        Some(JsonV::Str(s)) => {
            let ps = pieces(s, seq![',']);
            if t.contains(kind) {
                let k = choose|k: int| 0 <= k < t.len() && t[k] == kind;
                crate::text::law_trimmed_items_are_trimmed(ps, k);
                lemma_item_source(ps, k);
            }
            if kind.len() > 0 && exists|j: int|
                0 <= j < ps.len() && trimmed(#[trigger] ps[j]) == kind {
                let j = choose|j: int| 0 <= j < ps.len() && trimmed(#[trigger] ps[j]) == kind;
                lemma_item_kept(ps, ps[j]);
            }
        },
        _ => {},
    }
}

spec fn string_items_of(items: Seq<JsonV>) -> Seq<Seq<char>> {
    crate::json::string_items(items)
}

proof fn lemma_not_empty(list: Seq<Seq<char>>, x: Seq<char>)
    ensures
        not_empty(list).contains(x) <==> x.len() > 0 && list.contains(x),
    decreases list.len(),
{
    if list.len() > 0 {
        let before = list.drop_last();
        let kept = not_empty(before);
        let all = not_empty(list);
        lemma_not_empty(before, x);
        if list.contains(x) && x.len() > 0 {
            let k = choose|k: int| 0 <= k < list.len() && list[k] == x;
            if k < before.len() {
                assert(before[k] == x);
                let j = choose|j: int| 0 <= j < kept.len() && kept[j] == x;
                assert(all[j] == x);
            } else {
                assert(all[kept.len() as int] == x);
            }
        }
        if all.contains(x) {
            let j = choose|j: int| 0 <= j < all.len() && all[j] == x;
            if j < kept.len() {
                assert(kept[j] == x);
                let k = choose|k: int| 0 <= k < before.len() && before[k] == x;
                assert(list[k] == x);
            } else {
                assert(list[list.len() - 1] == x);
            }
        }
    }
}

/// The command turns interception on for exactly the given patterns, in their order, and
/// asks for proxy credentials to be asked for where there are some.
pub open spec fn intercepts(
    x: Exchange,
    session: Seq<char>,
    patterns: Seq<Seq<char>>,
    auth: bool,
) -> bool {
    &&& x.command.method@ == "Fetch.enable"@
    &&& opt_string(x.command.session) == Some(session)
    &&& x.command.view().params matches Some(p) && p.get("patterns"@) matches Some(
        JsonV::Array(items),
    ) && items.len() == patterns.len() && (forall|i: int|
        0 <= i < items.len() ==> (#[trigger] items[i]).str_at("urlPattern"@) == Some(patterns[i]))
        && p.bool_at("handleAuthRequests"@) == (if auth {
        Some(true)
    } else {
        None
    })
}

proof fn lemma_intercepts(
    x: Exchange,
    routes: Seq<RouteV>,
    flags: Interception,
    session: Seq<char>,
)
    requires
        x.command.view() == interception_command(routes, flags, session),
    ensures
        intercepts(x, session, fetch_patterns(routes, flags), flags.proxy_credentials),
{
    let patterns = fetch_patterns(routes, flags);
    reveal_strlit("patterns");
    reveal_strlit("handleAuthRequests");
    assert("patterns"@.len() == 8 && "handleAuthRequests"@.len() == 18);
    let p = x.command.view().params->Some_0;
    let f = p->Object_0;
    lemma_field_found(f, "patterns"@, 0);
    lemma_field_found(f, "handleAuthRequests"@, 1);
    let items = p.get("patterns"@)->Some_0->Array_0;
    assert forall|i: int| 0 <= i < items.len() implies (#[trigger] items[i]).str_at("urlPattern"@)
        == Some(patterns[i]) by {
        lemma_field_found(items[i]->Object_0, "urlPattern"@, 0);
    }
}

/// A route is added behind the others, which stay, and interception is turned on for the
/// patterns of all of them; a command that is refused changes nothing.
pub proof fn law_route_is_added_and_intercepted(
    cmd: &Json,
    browser: &Browser,
    routes: &mut Vec<RouteEntry>,
    flags: Interception,
    r: Result<Exchange, String>,
    route: Result<RouteEntry, String>,
    patterns: Vec<String>,
)
    requires
        call_ensures(handle_route, (cmd, browser, routes, flags), r),
        call_ensures(route_from_command, (cmd,), route),
        call_ensures(build_fetch_patterns, (&*final(routes), flags), patterns),
    ensures
        r is Ok <==> browser is Session && route is Ok,
        r matches Err(e) ==> e@ == (if browser is Session {
            route->Err_0@
        } else {
            refusal(*browser)
        }),
        r is Err ==> *final(routes) == *old(routes),
        r matches Ok(x) ==> {
            &&& routes_view(final(routes)@) == routes_view(old(routes)@).push(route->Ok_0.view())
            &&& intercepts(x, browser->Session_0@, texts(patterns@), flags.proxy_credentials)
            &&& x.reply.view().str_at("routed"@) == Some(route->Ok_0.url_pattern@)
        },
{
    if let Ok(x) = r {
        lemma_intercepts(x, routes_view(final(routes)@), flags, browser->Session_0@);
        lemma_field_found(x.reply.view()->Object_0, "routed"@, 0);
    }
}

/// The routes with the pattern that a command names are taken away, or all where it names
/// none, and no others; interception goes on for what is left, and is turned off where
/// nothing is left that asks for it.
pub proof fn law_routes_are_taken_away(
    cmd: &Json,
    browser: &Browser,
    routes: &mut Vec<RouteEntry>,
    flags: Interception,
    r: Result<Exchange, String>,
    patterns: Vec<String>,
    route: RouteV,
)
    requires
        call_ensures(handle_unroute, (cmd, browser, routes, flags), r),
        call_ensures(build_fetch_patterns, (&*final(routes), flags), patterns),
    ensures
        r is Ok <==> browser is Session,
        r matches Err(e) ==> e@ == refusal(*browser),
        r is Err ==> *final(routes) == *old(routes),
        r matches Ok(x) ==> {
            let url = cmd.view().str_at("url"@);
            let left = routes_view(final(routes)@);
            let unused = left.len() == 0 && !flags.domain_filter && !flags.origin_headers
                && !flags.proxy_credentials;
            &&& url is None ==> left.len() == 0
            &&& url matches Some(u) ==> (left.contains(route) <==> routes_view(old(routes)@).contains(route) && route.url_pattern != u)
            &&& unused ==> x.command.method@ == "Fetch.disable"@ && opt_string(x.command.session)
                == Some(browser->Session_0@)
            &&& !unused ==> intercepts(
                x,
                browser->Session_0@,
                texts(patterns@),
                flags.proxy_credentials,
            )
            &&& url matches Some(u) ==> x.reply.view().str_at("unrouted"@) == Some(u)
            &&& url is None ==> x.reply.view().str_at("unrouted"@) == Some("all"@)
        },
{
    if let Ok(x) = r {
        let left = routes_view(final(routes)@);
        law_interception_is_off_when_unused(left, flags);
        if let Some(u) = cmd.view().str_at("url"@) {
            law_unroute_removes_exactly(routes_view(old(routes)@), u, route);
        }
        if fetch_patterns(left, flags).len() > 0 {
            lemma_intercepts(x, left, flags, browser->Session_0@);
        }
        lemma_field_found(x.reply.view()->Object_0, "unrouted"@, 0);
    }
}

/// What is intercepted is what the routes are for: each has a pattern, in their order,
/// that selects the same URLs; and where anything else asks for it, a last one selects
/// all, unless one of theirs is that already.
pub proof fn law_routes_are_intercepted(
    routes: &Vec<RouteEntry>,
    flags: Interception,
    r: Vec<String>,
    i: int,
    url: Seq<char>,
)
    requires
        call_ensures(build_fetch_patterns, (routes, flags), r),
    ensures
        routes@.len() <= r@.len() <= routes@.len() + 1,
        0 <= i < routes@.len() ==> pattern_selects(r@[i]@, url) == pattern_selects(
            routes@[i].url_pattern@,
            url,
        ),
        r@.len() == routes@.len() + 1 ==> r@[routes@.len() as int]@ == "*"@,
        r@.len() == routes@.len() + 1 && 0 <= i < routes@.len() ==> r@[i]@ != "*"@,
        flags.domain_filter || flags.origin_headers || flags.proxy_credentials ==> texts(
            r@,
        ).contains("*"@),
        !(flags.domain_filter || flags.origin_headers || flags.proxy_credentials) ==> r@.len()
            == routes@.len(),
{
    let v = routes_view(routes@);
    let t = texts(r@);
    assert(t.len() == r@.len());
    assert(v.len() == routes@.len());
    if 0 <= i < routes@.len() {
        assert(v[i] == routes@[i].view());
        assert(t[i] == r@[i]@);
        assert(t[i] == collapsed(routes@[i].url_pattern@));
        law_collapse_selects_the_same(routes@[i].url_pattern@, url);
    }
    if r@.len() == routes@.len() + 1 {
        if 0 <= i < routes@.len() && r@[i]@ == "*"@ {
            assert(route_patterns(v)[i] == t[i]);
            assert(route_patterns(v).contains("*"@));
        }
        assert(t[routes@.len() as int] == r@[routes@.len() as int]@);
    }
    if flags.of_all() {
        law_all_requests_are_intercepted(v, flags);
    }
}

/// A pattern without a `*` selects the URLs that it is a part of; one with a `*` those that
/// it matches as a whole.
pub proof fn law_pattern_selects_urls(pattern: &str, url: &str, r: bool)
    requires
        call_ensures(route_url_matches, (pattern, url), r),
    ensures
        !pattern@.contains('*') ==> (r <==> has_substring(url@, pattern@)),
        pattern@ == "*"@ ==> r,
        pattern@.contains('*') ==> (r <==> glob_matches(pattern@, url@)),
{
    if pattern@ == "*"@ {
        reveal_strlit("*");
        assert(pattern@ == seq!['*']);
        crate::glob::law_star_selects_everything(url@);
    }
}

/// A pattern behind a front without a `*` selects only URLs that begin with that front,
/// and a `*` behind it selects them all.
pub proof fn law_pattern_with_a_star_at_the_end(
    front: Seq<char>,
    pattern: &str,
    url: &str,
    r: bool,
)
    requires
        call_ensures(route_url_matches, (pattern, url), r),
        !front.contains('*'),
        pattern@ == front.push('*'),
    ensures
        r <==> front.is_prefix_of(url@),
{
    assert(pattern@[front.len() as int] == '*');
    lemma_front(front, url@);
}

proof fn lemma_front(front: Seq<char>, url: Seq<char>)
    requires
        !front.contains('*'),
    ensures
        glob_matches(front.push('*'), url) <==> front.is_prefix_of(url),
    decreases front.len(),
{
    let p = front.push('*');
    if front.len() == 0 {
        assert(p.skip(1).len() == 0);
        assert(url.skip(url.len() as int).len() == 0);
        assert(glob_matches(p.skip(1), url.skip(url.len() as int)));
    } else {
        assert(front[0] != '*');
        let rest = front.skip(1);
        assert(!rest.contains('*')) by {
            if rest.contains('*') {
                let k = choose|k: int| 0 <= k < rest.len() && rest[k] == '*';
                assert(front[k + 1] == '*');
            }
        }
        assert(p.skip(1) == rest.push('*'));
        if url.len() > 0 {
            lemma_front(rest, url.skip(1));
            if front.is_prefix_of(url) {
                assert forall|k: int| 0 <= k < rest.len() implies rest[k] == url.skip(1)[k] by {
                    assert(front[k + 1] == url.subrange(0, front.len() as int)[k + 1]);
                }
                assert(rest == url.skip(1).subrange(0, rest.len() as int));
                assert(front[0] == url.subrange(0, front.len() as int)[0]);
            }
            if url[0] == front[0] && rest.is_prefix_of(url.skip(1)) {
                assert forall|k: int| 0 <= k < front.len() implies front[k] == url[k] by {
                    if k > 0 {
                        assert(rest[k - 1] == url.skip(1).subrange(0, rest.len() as int)[k - 1]);
                    }
                }
                assert(front == url.subrange(0, front.len() as int));
            }
        }
    }
}

/// Shortening the runs of `*` in a pattern leaves it with no run and selects the same
/// URLs.
pub proof fn law_shortened_pattern_is_the_same(
    pattern: &str,
    short: String,
    url: &str,
    a: bool,
    b: bool,
    i: int,
)
    requires
        call_ensures(collapse_wildcards, (pattern,), short),
        call_ensures(route_url_matches, (pattern, url), a),
        pattern_selects(short@, url@) == b,
    ensures
        a == b,
        0 <= i < short@.len() - 1 ==> !(short@[i] == '*' && short@[i + 1] == '*'),
{
    law_collapse_selects_the_same(pattern@, url@);
    if 0 <= i < short@.len() - 1 {
        law_collapsed_has_no_run(pattern@, i);
    }
}

/// A pattern that is a `*` and an end without one selects the URLs with that end.
pub proof fn law_pattern_with_a_star_at_the_front(
    end: Seq<char>,
    pattern: &str,
    url: &str,
    r: bool,
)
    requires
        call_ensures(route_url_matches, (pattern, url), r),
        !end.contains('*'),
        pattern@ == seq!['*'] + end,
    ensures
        r <==> end.len() <= url@.len() && url@.skip(url@.len() - end.len()) == end,
{
    let p = pattern@;
    assert(p[0] == '*');
    assert(p.skip(1) == end);
    if end.len() <= url@.len() && url@.skip(url@.len() - end.len()) == end {
        let k = url@.len() - end.len();
        lemma_literal(end, url@.skip(k));
        assert(glob_matches(p.skip(1), url@.skip(k)));
    }
    if glob_matches(p, url@) {
        let k = choose|k: int|
            0 <= k <= url@.len() && glob_matches(p.skip(1), #[trigger] url@.skip(k));
        lemma_literal(end, url@.skip(k));
        assert(url@.skip(k).len() == end.len());
    }
}

proof fn lemma_literal(pattern: Seq<char>, text: Seq<char>)
    requires
        !pattern.contains('*'),
    ensures
        glob_matches(pattern, text) <==> text == pattern,
    decreases pattern.len(),
{
    if pattern.len() > 0 {
        assert(pattern[0] != '*');
        let rest = pattern.skip(1);
        assert(!rest.contains('*')) by {
            if rest.contains('*') {
                let k = choose|k: int| 0 <= k < rest.len() && rest[k] == '*';
                assert(pattern[k + 1] == '*');
            }
        }
        if text.len() > 0 {
            lemma_literal(rest, text.skip(1));
            if text[0] == pattern[0] && text.skip(1) == rest {
                assert forall|i: int| 0 <= i < text.len() implies text[i] == pattern[i] by {
                    if i > 0 {
                        assert(text.skip(1)[i - 1] == rest[i - 1]);
                    }
                }
                assert(text.len() == pattern.len()) by {
                    assert(text.skip(1).len() == rest.len());
                }
                assert(text == pattern);
            }
        }
    } else {
        assert(text.len() == 0 ==> text == pattern);
    }
}

} // verus!
