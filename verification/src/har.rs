//! HAR 1.2 export of captured network traffic, and video recording.
use vstd::prelude::*;
use vstd::string::*;

use crate::cdp::{bare_command, required, req_str, Browser, CdpCommand, CommandV};
use crate::fetch::{headers_json, named_values};
use crate::json::{
    field, fields_view, items_view, lemma_items_push, opt_str, opt_string, or_else, seen, seen_value,
    Fields, Json, JsonV, Num, Real,
};
use crate::number::{decimal, decimal_text};
use crate::outside::{
    format_now, format_rfc3339, opt_url, parse_url, rfc3339_text, rfc3339_writes, url_of, UrlParts,
    UrlView,
};
use crate::text::{
    ascii_lowered, cut_at, equal_ignoring_case, first_index, is_white, joined, lemma_first_index,
    lemma_last_piece, lemma_one_piece, lemma_trimmed_ends, lemma_trimmed_keeps, pairs, pieces,
    position_of, same, same_ignoring_case, split, split_once, texts, to_ascii_lower, trim, trimmed,
};

verus! {

/// The HTTP version that a protocol name of the browser stands for; `HTTP/1.1` where
/// it is no other.
pub open spec fn http_version(protocol: Seq<char>) -> Seq<char> {
    let p = ascii_lowered(protocol);
    if p == "h2"@ {
        "HTTP/2.0"@
    } else if p == "h3"@ {
        "HTTP/3.0"@
    } else if p == "http/1.0"@ {
        "HTTP/1.0"@
    } else {
        "HTTP/1.1"@
    }
}

/// The HTTP version that a protocol name of the browser stands for.
pub fn har_cdp_protocol_to_http_version(protocol: &str) -> (r: String)
    ensures
        r@ == http_version(protocol@),
{
    let p = to_ascii_lower(protocol);
    if same(&p, "h2") {
        "HTTP/2.0".to_owned()
    } else if same(&p, "h3") {
        "HTTP/3.0".to_owned()
    } else if same(&p, "http/1.0") {
        "HTTP/1.0".to_owned()
    } else {
        "HTTP/1.1".to_owned()
    }
}

/// A header object as a list, in order; a value that is no string counts as empty.
pub open spec fn header_list(value: Option<JsonV>) -> Seq<(Seq<char>, Seq<char>)> {
    match value {
        Some(JsonV::Object(fields)) => fields.map_values(
            |f: (Seq<char>, JsonV)| (f.0, or_else(f.1.as_str(), Seq::<char>::empty())),
        ),
        _ => Seq::<(Seq<char>, Seq<char>)>::empty(),
    }
}

/// A header object as a list, in order.
pub fn har_extract_headers(headers: Option<&Json>) -> (r: Vec<(String, String)>)
    ensures
        pairs(r@) == header_list(seen(headers)),
{
    let mut out: Vec<(String, String)> = Vec::new();
    assert(pairs(out@) == Seq::<(Seq<char>, Seq<char>)>::empty());
    match headers {
        Some(Json::Object(fields)) => {
            assert(fields@.take(0) == Seq::<(String, Json)>::empty());
            assert(pairs(out@) == header_list(Some(JsonV::Object(fields_view(fields@.take(0))))));
            for i in 0..fields.len()
                invariant
                    pairs(out@) == header_list(
                        Some(JsonV::Object(fields_view(fields@.take(i as int)))),
                    ),
            {
                let value = match fields[i].1.as_str() {
                    Some(s) => s.to_owned(),
                    None => String::new(),
                };
                let ghost before = pairs(out@);
                let ghost f0 = fields_view(fields@.take(i as int));
                let ghost f1 = fields_view(fields@.take(i + 1));
                let name = fields[i].0.clone();
                out.push((name, value));
                proof {
                    assert(fields@.take(i + 1).drop_last() == fields@.take(i as int));
                    assert(fields@.take(i + 1).last() == fields@[i as int]);
                    assert(f1 == f0.push((fields@[i as int].0@, fields@[i as int].1.view())));
                    assert(pairs(out@) == before.push((name@, value@)));
                    assert(pairs(out@) == header_list(Some(JsonV::Object(f1))));
                }
            }
            assert(fields@.take(fields@.len() as int) == fields@);
        },
        _ => {},
    }
    out
}

/// The name and the value of a cookie: what stands before and behind the first `=`,
/// without the white space around them; without a `=` all of it is the name.
pub open spec fn cookie_pair(text: Seq<char>) -> (Seq<char>, Seq<char>) {
    match cut_at(text, '=') {
        Some((name, value)) => (trimmed(name), trimmed(value)),
        None => (trimmed(text), trimmed(Seq::<char>::empty())),
    }
}

fn read_cookie(text: &str) -> (r: (String, String))
    ensures
        (r.0@, r.1@) == cookie_pair(text@),
{
    match split_once(text, '=') {
        Some((name, value)) => (trim(name).to_owned(), trim(value).to_owned()),
        None => {
            assert(trimmed(Seq::<char>::empty()) == Seq::<char>::empty());
            (trim(text).to_owned(), String::new())
        },
    }
}

/// The cookies in some parts of a header: those that are not blank, in order.
pub open spec fn cookies_in(parts: Seq<Seq<char>>) -> Seq<(Seq<char>, Seq<char>)>
    decreases parts.len(),
{
    if parts.len() == 0 {
        Seq::<(Seq<char>, Seq<char>)>::empty()
    } else {
        let before = cookies_in(parts.drop_last());
        let part = trimmed(parts.last());
        if part.len() == 0 {
            before
        } else {
            before.push(cookie_pair(part))
        }
    }
}

/// The cookies of a `Cookie` header.
pub fn request_cookies(cookie_header: &str) -> (r: Vec<(String, String)>)
    ensures
        pairs(r@) == cookies_in(pieces(cookie_header@, seq![';'])),
{
    let seps: Vec<char> = vec![';'];
    assert(seps@ == seq![';']);
    let parts = split(cookie_header, &seps);
    let ghost ps = pieces(cookie_header@, seq![';']);
    let mut out: Vec<(String, String)> = Vec::new();
    assert(pairs(out@) == cookies_in(ps.take(0)));
    for i in 0..parts.len()
        invariant
            texts(parts@) == ps,
            pairs(out@) == cookies_in(ps.take(i as int)),
    {
        let part = trim(&parts[i]);
        proof {
            assert(ps.take(i + 1).drop_last() == ps.take(i as int));
            assert(ps.take(i + 1).last() == parts@[i as int]@);
        }
        if !part.is_empty() {
            let c = read_cookie(part);
            let ghost before = pairs(out@);
            out.push(c);
            assert(pairs(out@) == before.push((c.0@, c.1@)));
        }
    }
    assert(ps.take(parts@.len() as int) == ps);
    out
}

/// The cookies of a `Cookie` header as HAR objects.
pub fn har_parse_request_cookies(cookie_header: &str) -> (r: Json)
    ensures
        r.view() == headers_json(cookies_in(pieces(cookie_header@, seq![';']))),
{
    named_values(&request_cookies(cookie_header))
}

/// The query of a URL as a list; none where the URL cannot be read.
pub open spec fn query_list(url: Option<UrlView>) -> Seq<(Seq<char>, Seq<char>)> {
    match url {
        Some(u) => u.query,
        None => Seq::<(Seq<char>, Seq<char>)>::empty(),
    }
}

/// The query of a URL as HAR objects, given what the URL is read as.
pub fn query_objects(url: &Option<UrlParts>) -> (r: Json)
    ensures
        r.view() == headers_json(query_list(opt_url(*url))),
{
    match url {
        Some(u) => named_values(&u.query),
        None => {
            let none: Vec<(String, String)> = Vec::new();
            assert(pairs(none@) == Seq::<(Seq<char>, Seq<char>)>::empty());
            named_values(&none)
        },
    }
}

/// The query of a URL as HAR objects.
pub fn har_parse_query_string(url: &str) -> (r: Json)
    ensures
        r.view() == headers_json(query_list(url_of(url@))),
{
    query_objects(&parse_url(url))
}

/// The value of the first header with the given name, whatever its case.
pub open spec fn header_value(
    headers: Seq<(Seq<char>, Seq<char>)>,
    name: Seq<char>,
) -> Option<Seq<char>>
    decreases headers.len(),
{
    if headers.len() == 0 {
        None
    } else if equal_ignoring_case(headers[0].0, name) {
        Some(headers[0].1)
    } else {
        header_value(headers.skip(1), name)
    }
}

fn find_header<'a>(headers: &'a Vec<(String, String)>, name: &str) -> (r: Option<&'a str>)
    ensures
        opt_str(r) == header_value(pairs(headers@), name@),
{
    let ghost h = pairs(headers@);
    assert(h.skip(0) == h);
    for i in 0..headers.len()
        invariant
            h == pairs(headers@),
            header_value(h, name@) == header_value(h.skip(i as int), name@),
    {
        assert(h.skip(i as int)[0] == (headers@[i as int].0@, headers@[i as int].1@));
        assert(h.skip(i as int).skip(1) == h.skip(i + 1));
        if same_ignoring_case(&headers[i].0, name) {
            return Some(headers[i].1.as_str());
        }
    }
    None
}

/// The cookie of a `Set-Cookie` header: its attributes, which follow the first `;`,
/// do not belong to it.
pub open spec fn set_cookie(value: Seq<char>) -> (Seq<char>, Seq<char>) {
    cookie_pair(value.take(first_index(value, ';')))
}

/// The cookies that the `Set-Cookie` headers set, in order.
pub open spec fn set_cookies(headers: Seq<(Seq<char>, Seq<char>)>) -> Seq<(Seq<char>, Seq<char>)>
    decreases headers.len(),
{
    if headers.len() == 0 {
        Seq::<(Seq<char>, Seq<char>)>::empty()
    } else {
        let before = set_cookies(headers.drop_last());
        let (name, value) = headers.last();
        if equal_ignoring_case(name, "set-cookie"@) {
            before.push(set_cookie(value))
        } else {
            before
        }
    }
}

/// The cookies that the `Set-Cookie` headers set, in order.
pub fn response_cookies(headers: &Vec<(String, String)>) -> (r: Vec<(String, String)>)
    ensures
        pairs(r@) == set_cookies(pairs(headers@)),
{
    let ghost h = pairs(headers@);
    let mut out: Vec<(String, String)> = Vec::new();
    assert(pairs(out@) == set_cookies(h.take(0)));
    for i in 0..headers.len()
        invariant
            h == pairs(headers@),
            pairs(out@) == set_cookies(h.take(i as int)),
    {
        proof {
            assert(h.take(i + 1).drop_last() == h.take(i as int));
            assert(h.take(i + 1).last() == (headers@[i as int].0@, headers@[i as int].1@));
        }
        if same_ignoring_case(&headers[i].0, "set-cookie") {
            let value = headers[i].1.as_str();
            let end = position_of(value, ';');
            let front = value.substring_char(0, end);
            assert(value@.subrange(0, end as int) == value@.take(end as int));
            let c = read_cookie(front);
            let ghost before = pairs(out@);
            out.push(c);
            assert(pairs(out@) == before.push((c.0@, c.1@)));
        }
    }
    assert(h.take(headers@.len() as int) == h);
    out
}

/// A stretch of time between two moments.
#[derive(Clone, Copy, PartialEq, Eq, Structural, Debug)]
pub struct Span {
    pub from: Num,
    pub to: Num,
}

/// Which phases of a request its timing data tells of, and between which moments:
/// the browser's numbers are milliseconds since the start of the request, and a
/// negative one stands for a phase that did not occur.
#[derive(Clone, Copy, PartialEq, Eq, Structural, Debug)]
pub struct TimingPlan {
    pub blocked: Option<Num>,
    pub dns: Option<Span>,
    pub connect: Option<Span>,
    pub ssl: Option<Span>,
    pub send: Span,
    pub wait: Option<Span>,
    pub receive: Option<Reception>,
}

/// The reception of the body: it starts at the start of the request, in seconds, and
/// so many milliseconds more, and ends when loading has finished, in seconds.
#[derive(Clone, Copy, PartialEq, Eq, Structural, Debug)]
pub struct Reception {
    pub request_time: Num,
    pub headers_end: Num,
    pub finished: Real,
}

/// The number under a key of the timing data, or -1.
pub open spec fn timing_at(t: JsonV, key: Seq<char>) -> Num {
    or_else(t.number_at(key), Num::Negative((-1) as i64))
}

/// A phase that has both its moments.
pub open spec fn phase(from: Num, to: Num) -> Option<Span> {
    if from.not_negative() && to.not_negative() {
        Some(Span { from, to })
    } else {
        None
    }
}

/// The plan for the timing data of a request. A request is blocked until the first
/// moment after zero of name lookup, connecting and sending. It waits from the end of
/// sending to the start of the response headers, or to their end where their start is
/// not known. It receives from their end until loading has finished.
pub open spec fn timing_plan(t: JsonV, finished: Option<Real>) -> TimingPlan {
    let dns_start = timing_at(t, "dnsStart"@);
    let connect_start = timing_at(t, "connectStart"@);
    let send_start = timing_at(t, "sendStart"@);
    let send_end = timing_at(t, "sendEnd"@);
    let headers_start = timing_at(t, "receiveHeadersStart"@);
    let headers_end = timing_at(t, "receiveHeadersEnd"@);
    let request_time = timing_at(t, "requestTime"@);
    TimingPlan {
        blocked: if dns_start.positive() {
            Some(dns_start)
        } else if connect_start.positive() {
            Some(connect_start)
        } else if send_start.positive() {
            Some(send_start)
        } else {
            None
        },
        dns: phase(dns_start, timing_at(t, "dnsEnd"@)),
        connect: phase(connect_start, timing_at(t, "connectEnd"@)),
        ssl: phase(timing_at(t, "sslStart"@), timing_at(t, "sslEnd"@)),
        send: Span { from: send_start, to: send_end },
        wait: if send_end.not_negative() {
            Some(
                Span {
                    from: send_end,
                    to: if headers_start.not_negative() {
                        headers_start
                    } else {
                        headers_end
                    },
                },
            )
        } else {
            None
        },
        receive: match finished {
            Some(finished) => if request_time.not_negative() && headers_end.not_negative() {
                Some(Reception { request_time, headers_end, finished })
            } else {
                None
            },
            None => None,
        },
    }
}

fn timing(t: &Json, key: &str) -> (r: Num)
    ensures
        r == timing_at(t.view(), key@),
{
    match t.number_at(key) {
        Some(n) => n,
        None => Num::Negative(-1),
    }
}

fn phase_between(from: Num, to: Num) -> (r: Option<Span>)
    ensures
        r == phase(from, to),
{
    if from.is_not_negative() && to.is_not_negative() {
        Some(Span { from, to })
    } else {
        None
    }
}

fn plan_timings(t: &Json, finished: Option<Real>) -> (r: TimingPlan)
    ensures
        r == timing_plan(t.view(), finished),
{
    let dns_start = timing(t, "dnsStart");
    let connect_start = timing(t, "connectStart");
    let send_start = timing(t, "sendStart");
    let send_end = timing(t, "sendEnd");
    let headers_start = timing(t, "receiveHeadersStart");
    let headers_end = timing(t, "receiveHeadersEnd");
    let request_time = timing(t, "requestTime");
    let blocked = if dns_start.is_positive() {
        Some(dns_start)
    } else if connect_start.is_positive() {
        Some(connect_start)
    } else if send_start.is_positive() {
        Some(send_start)
    } else {
        None
    };
    let wait_end = if headers_start.is_not_negative() {
        headers_start
    } else {
        headers_end
    };
    TimingPlan {
        blocked,
        dns: phase_between(dns_start, timing(t, "dnsEnd")),
        connect: phase_between(connect_start, timing(t, "connectEnd")),
        ssl: phase_between(timing(t, "sslStart"), timing(t, "sslEnd")),
        send: Span { from: send_start, to: send_end },
        wait: if send_end.is_not_negative() {
            Some(Span { from: send_end, to: wait_end })
        } else {
            None
        },
        receive: match finished {
            Some(finished) => if request_time.is_not_negative() && headers_end.is_not_negative() {
                Some(Reception { request_time, headers_end, finished })
            } else {
                None
            },
            None => None,
        },
    }
}

/// The plan for the timing data of a request, if it has any, and the moment in seconds
/// at which loading has finished, if it has.
pub fn har_compute_timings(timing: Option<&Json>, finished: Option<Real>) -> (r: Option<
    TimingPlan,
>)
    ensures
        r == match seen(timing) {
            Some(t) => Some(timing_plan(t, finished)),
            None => None,
        },
{
    match timing {
        Some(t) => Some(plan_timings(t, finished)),
        None => None,
    }
}

/// The lengths of the phases of a request in milliseconds.
#[derive(Clone, Copy, PartialEq, Eq, Structural, Debug)]
pub struct TimingValues {
    pub blocked: Option<Real>,
    pub dns: Option<Real>,
    pub connect: Option<Real>,
    pub ssl: Option<Real>,
    pub send: Real,
    pub wait: Real,
    pub receive: Real,
}

/// The number zero.
pub open spec fn zero() -> Real {
    Real { bits: 0 }
}

/// A length that is at least zero.
pub open spec fn proper(x: Option<Real>) -> Option<Real> {
    match x {
        Some(x) => if x.not_negative() {
            Some(x)
        } else {
            None
        },
        None => None,
    }
}

/// A length that is more than zero.
pub open spec fn more_than_zero(x: Option<Real>) -> Option<Real> {
    match x {
        Some(x) => if x.positive() {
            Some(x)
        } else {
            None
        },
        None => None,
    }
}

/// The length, or zero where it is negative.
pub open spec fn floored(x: Real) -> Real {
    or_else(proper(Some(x)), zero())
}

/// The fields, with one more for a length, if there is one.
pub open spec fn with_length(
    fields: Seq<(Seq<char>, JsonV)>,
    key: Seq<char>,
    x: Option<Real>,
) -> Seq<(Seq<char>, JsonV)> {
    match x {
        Some(x) => fields.push((key, JsonV::Number(Num::Float(x)))),
        None => fields,
    }
}

/// The HAR `timings` object. Without timing data its three required fields are 0, and
/// they are never negative; the optional ones stand where the phase occurred.
pub open spec fn timings_object(v: Option<TimingValues>) -> JsonV {
    match v {
        None => JsonV::Object(
            seq![
                ("send"@, JsonV::Number(Num::Unsigned(0))),
                ("wait"@, JsonV::Number(Num::Unsigned(0))),
                ("receive"@, JsonV::Number(Num::Unsigned(0))),
            ],
        ),
        Some(v) => {
            let start = seq![
                ("send"@, JsonV::Number(Num::Float(floored(v.send)))),
                ("wait"@, JsonV::Number(Num::Float(floored(v.wait)))),
                ("receive"@, JsonV::Number(Num::Float(floored(v.receive)))),
            ];
            let b = with_length(start, "blocked"@, more_than_zero(v.blocked));
            let d = with_length(b, "dns"@, proper(v.dns));
            let c = with_length(d, "connect"@, proper(v.connect));
            JsonV::Object(with_length(c, "ssl"@, proper(v.ssl)))
        },
    }
}

fn keep_proper(x: Option<Real>) -> (r: Option<Real>)
    ensures
        r == proper(x),
{
    match x {
        Some(x) => if Num::Float(x).is_not_negative() {
            Some(x)
        } else {
            None
        },
        None => None,
    }
}

fn keep_more_than_zero(x: Option<Real>) -> (r: Option<Real>)
    ensures
        r == more_than_zero(x),
{
    match x {
        Some(x) => if Num::Float(x).is_positive() {
            Some(x)
        } else {
            None
        },
        None => None,
    }
}

fn length_or_zero(x: Option<Real>) -> (r: Real)
    ensures
        r == or_else(x, zero()),
{
    match x {
        Some(x) => x,
        None => Real { bits: 0 },
    }
}

fn floor(x: Real) -> (r: Real)
    ensures
        r == floored(x),
{
    length_or_zero(keep_proper(Some(x)))
}

fn add_length(fields: Fields, key: &str, x: Option<Real>) -> (r: Fields)
    ensures
        r.view() == with_length(fields.view(), key@, x),
{
    match x {
        Some(x) => fields.with(key, Json::Number(Num::Float(x))),
        None => fields,
    }
}

/// The HAR `timings` object for the lengths of the phases.
pub fn timings_json(v: Option<TimingValues>) -> (r: Json)
    ensures
        r.view() == timings_object(v),
{
    match v {
        None => {
            let f = Fields::new().with("send", Json::Number(Num::Unsigned(0))).with(
                "wait",
                Json::Number(Num::Unsigned(0)),
            ).with("receive", Json::Number(Num::Unsigned(0)));
            assert(f.view() == seq![
                ("send"@, JsonV::Number(Num::Unsigned(0))),
                ("wait"@, JsonV::Number(Num::Unsigned(0))),
                ("receive"@, JsonV::Number(Num::Unsigned(0))),
            ]);
            f.done()
        },
        Some(v) => {
            let f = Fields::new().with("send", Json::Number(Num::Float(floor(v.send)))).with(
                "wait",
                Json::Number(Num::Float(floor(v.wait))),
            ).with("receive", Json::Number(Num::Float(floor(v.receive))));
            assert(f.view() == seq![
                ("send"@, JsonV::Number(Num::Float(floored(v.send)))),
                ("wait"@, JsonV::Number(Num::Float(floored(v.wait)))),
                ("receive"@, JsonV::Number(Num::Float(floored(v.receive)))),
            ]);
            let f = add_length(f, "blocked", keep_more_than_zero(v.blocked));
            let f = add_length(f, "dns", keep_proper(v.dns));
            let f = add_length(f, "connect", keep_proper(v.connect));
            add_length(f, "ssl", keep_proper(v.ssl)).done()
        },
    }
}

/// The lengths that make up the total time, in the order in which they are added. The
/// TLS handshake lies within connecting and is not counted again.
pub open spec fn total_terms_of(v: TimingValues) -> Seq<Real> {
    seq![
        or_else(more_than_zero(v.blocked), zero()),
        or_else(proper(v.dns), zero()),
        or_else(proper(v.connect), zero()),
        floored(v.send),
        floored(v.wait),
        floored(v.receive),
    ]
}

/// The lengths that make up the total time.
pub fn total_terms(v: TimingValues) -> (r: Vec<Real>)
    ensures
        r@ == total_terms_of(v),
{
    let mut out: Vec<Real> = Vec::new();
    out.push(length_or_zero(keep_more_than_zero(v.blocked)));
    out.push(length_or_zero(keep_proper(v.dns)));
    out.push(length_or_zero(keep_proper(v.connect)));
    out.push(floor(v.send));
    out.push(floor(v.wait));
    out.push(floor(v.receive));
    out
}

/// A request and its response, as captured from the browser.
#[derive(PartialEq, Eq, Debug)]
pub struct HarEntry {
    pub wall_time: Real,
    pub method: String,
    pub url: String,
    pub http_version: String,
    pub request_headers: Vec<(String, String)>,
    pub request_body_size: i64,
    pub post_data: Option<String>,
    pub status: Option<i64>,
    pub status_text: String,
    pub response_headers: Vec<(String, String)>,
    pub response_body_size: i64,
    pub mime_type: String,
    pub redirect_url: String,
    pub resource_type: String,
    pub cdp_timing: Option<Json>,
    pub loading_finished_timestamp: Option<Real>,
}

/// The cookies that a request brings: those of its first `Cookie` header.
pub open spec fn cookies_sent(headers: Seq<(Seq<char>, Seq<char>)>) -> Seq<(Seq<char>, Seq<char>)> {
    match header_value(headers, "cookie"@) {
        Some(text) => cookies_in(pieces(text, seq![';'])),
        None => Seq::<(Seq<char>, Seq<char>)>::empty(),
    }
}

/// The number -1, which stands for a size that is not known.
pub open spec fn unknown_size() -> JsonV {
    JsonV::Number(Num::of_i64((-1) as i64))
}

/// The HAR `request` object. Only a request with a body has `postData`.
pub open spec fn request_object(e: HarEntry) -> JsonV {
    let headers = pairs(e.request_headers@);
    let fields = seq![
        ("method"@, JsonV::Str(e.method@)),
        ("url"@, JsonV::Str(e.url@)),
        ("httpVersion"@, JsonV::Str(e.http_version@)),
        ("cookies"@, headers_json(cookies_sent(headers))),
        ("headers"@, headers_json(headers)),
        ("queryString"@, headers_json(query_list(url_of(e.url@)))),
        ("headersSize"@, unknown_size()),
        ("bodySize"@, JsonV::Number(Num::of_i64(e.request_body_size))),
    ];
    match e.post_data {
        Some(body) => JsonV::Object(
            fields.push(
                (
                    "postData"@,
                    JsonV::Object(
                        seq![
                            (
                                "mimeType"@,
                                JsonV::Str(
                                    or_else(
                                        header_value(headers, "content-type"@),
                                        "text/plain"@,
                                    ),
                                ),
                            ),
                            ("text"@, JsonV::Str(body@)),
                        ],
                    ),
                ),
            ),
        ),
        None => JsonV::Object(fields),
    }
}

/// The media type of a response; without one its body is arbitrary bytes.
pub open spec fn media_type(mime_type: Seq<char>) -> Seq<char> {
    if mime_type.len() == 0 {
        "application/octet-stream"@
    } else {
        mime_type
    }
}

/// The HAR `response` object. A request without a response has status 0.
pub open spec fn response_object(e: HarEntry) -> JsonV {
    JsonV::Object(
        seq![
            ("status"@, JsonV::Number(Num::of_i64(or_else(e.status, 0i64)))),
            ("statusText"@, JsonV::Str(e.status_text@)),
            ("httpVersion"@, JsonV::Str(e.http_version@)),
            ("cookies"@, headers_json(set_cookies(pairs(e.response_headers@)))),
            ("headers"@, headers_json(pairs(e.response_headers@))),
            (
                "content"@,
                JsonV::Object(
                    seq![
                        ("size"@, JsonV::Number(Num::of_i64(e.response_body_size))),
                        ("mimeType"@, JsonV::Str(media_type(e.mime_type@))),
                    ],
                ),
            ),
            ("redirectURL"@, JsonV::Str(e.redirect_url@)),
            ("headersSize"@, unknown_size()),
            ("bodySize"@, JsonV::Number(Num::of_i64(e.response_body_size))),
        ],
    )
}

/// The HAR 1.2 entry of a request, given when it started, its total time and its
/// `timings` object.
pub open spec fn entry_object(e: HarEntry, started: Seq<char>, total: Real, timings: JsonV) -> JsonV {
    JsonV::Object(
        seq![
            ("startedDateTime"@, JsonV::Str(started)),
            ("time"@, JsonV::Number(Num::Float(total))),
            ("request"@, request_object(e)),
            ("response"@, response_object(e)),
            ("cache"@, JsonV::Object(Seq::<(Seq<char>, JsonV)>::empty())),
            ("timings"@, timings),
            ("_resourceType"@, JsonV::Str(e.resource_type@)),
        ],
    )
}

fn har_request(e: &HarEntry) -> (r: Json)
    ensures
        r.view() == request_object(*e),
{
    let cookies = match find_header(&e.request_headers, "cookie") {
        Some(text) => har_parse_request_cookies(text),
        None => {
            let none: Vec<(String, String)> = Vec::new();
            assert(pairs(none@) == Seq::<(Seq<char>, Seq<char>)>::empty());
            named_values(&none)
        },
    };
    let f = Fields::new().with("method", Json::text(&e.method)).with(
        "url",
        Json::text(&e.url),
    ).with("httpVersion", Json::text(&e.http_version)).with("cookies", cookies).with(
        "headers",
        named_values(&e.request_headers),
    ).with("queryString", har_parse_query_string(&e.url)).with(
        "headersSize",
        Json::integer(-1),
    ).with("bodySize", Json::integer(e.request_body_size));
    let ghost headers = pairs(e.request_headers@);
    assert(f.view() == seq![
        ("method"@, JsonV::Str(e.method@)),
        ("url"@, JsonV::Str(e.url@)),
        ("httpVersion"@, JsonV::Str(e.http_version@)),
        ("cookies"@, headers_json(cookies_sent(headers))),
        ("headers"@, headers_json(headers)),
        ("queryString"@, headers_json(query_list(url_of(e.url@)))),
        ("headersSize"@, unknown_size()),
        ("bodySize"@, JsonV::Number(Num::of_i64(e.request_body_size))),
    ]);
    match &e.post_data {
        Some(body) => {
            let content_type = match find_header(&e.request_headers, "content-type") {
                Some(t) => t,
                None => "text/plain",
            };
            let post = Fields::new().with("mimeType", Json::text(content_type)).with(
                "text",
                Json::text(body),
            );
            assert(post.view() == seq![
                (
                    "mimeType"@,
                    JsonV::Str(or_else(header_value(headers, "content-type"@), "text/plain"@)),
                ),
                ("text"@, JsonV::Str(body@)),
            ]);
            f.with("postData", post.done()).done()
        },
        None => f.done(),
    }
}

fn har_response(e: &HarEntry) -> (r: Json)
    ensures
        r.view() == response_object(*e),
{
    let status = match e.status {
        Some(s) => s,
        None => 0,
    };
    let mime_type = if e.mime_type.as_str().is_empty() {
        "application/octet-stream"
    } else {
        e.mime_type.as_str()
    };
    let content = Fields::new().with("size", Json::integer(e.response_body_size)).with(
        "mimeType",
        Json::text(mime_type),
    );
    assert(content.view() == seq![
        ("size"@, JsonV::Number(Num::of_i64(e.response_body_size))),
        ("mimeType"@, JsonV::Str(media_type(e.mime_type@))),
    ]);
    let f = Fields::new().with("status", Json::integer(status)).with(
        "statusText",
        Json::text(&e.status_text),
    ).with("httpVersion", Json::text(&e.http_version)).with(
        "cookies",
        named_values(&response_cookies(&e.response_headers)),
    ).with("headers", named_values(&e.response_headers)).with("content", content.done()).with(
        "redirectURL",
        Json::text(&e.redirect_url),
    ).with("headersSize", Json::integer(-1)).with("bodySize", Json::integer(e.response_body_size));
    assert(f.view() == response_object(*e)->Object_0);
    f.done()
}

/// The lengths without those of phases that the plan does not tell of.
pub open spec fn fitting(p: TimingPlan, v: TimingValues) -> TimingValues {
    TimingValues {
        blocked: if p.blocked is Some {
            v.blocked
        } else {
            None
        },
        dns: if p.dns is Some {
            v.dns
        } else {
            None
        },
        connect: if p.connect is Some {
            v.connect
        } else {
            None
        },
        ssl: if p.ssl is Some {
            v.ssl
        } else {
            None
        },
        send: v.send,
        wait: if p.wait is Some {
            v.wait
        } else {
            zero()
        },
        receive: if p.receive is Some {
            v.receive
        } else {
            zero()
        },
    }
}

/// The lengths that count for a request: those of the phases that its timing data tells
/// of; none where it has no timing data.
pub open spec fn entry_values(e: HarEntry, v: Option<TimingValues>) -> Option<TimingValues> {
    match (seen_value(e.cdp_timing), v) {
        (Some(t), Some(v)) => Some(fitting(timing_plan(t, e.loading_finished_timestamp), v)),
        _ => None,
    }
}

/// The total time of a request, which is zero where no lengths count for it.
pub open spec fn entry_total(v: Option<TimingValues>, total: Real) -> Real {
    if v is Some {
        total
    } else {
        zero()
    }
}

/// The lengths that count for a request.
pub fn timing_values(e: &HarEntry, v: Option<TimingValues>) -> (r: Option<TimingValues>)
    ensures
        r == entry_values(*e, v),
{
    match (&e.cdp_timing, v) {
        (Some(t), Some(v)) => {
            let p = plan_timings(t, e.loading_finished_timestamp);
            Some(
                TimingValues {
                    blocked: if p.blocked.is_some() {
                        v.blocked
                    } else {
                        None
                    },
                    dns: if p.dns.is_some() {
                        v.dns
                    } else {
                        None
                    },
                    connect: if p.connect.is_some() {
                        v.connect
                    } else {
                        None
                    },
                    ssl: if p.ssl.is_some() {
                        v.ssl
                    } else {
                        None
                    },
                    send: v.send,
                    wait: if p.wait.is_some() {
                        v.wait
                    } else {
                        Real { bits: 0 }
                    },
                    receive: if p.receive.is_some() {
                        v.receive
                    } else {
                        Real { bits: 0 }
                    },
                },
            )
        },
        _ => None,
    }
}

/// When a request started: the text of its own moment where there is one, else that of
/// the present moment, else the start of 1970.
pub open spec fn started_text(own: Option<Seq<char>>, now: Option<Seq<char>>) -> Seq<char> {
    or_else(own, or_else(now, "1970-01-01T00:00:00Z"@))
}

/// When a request started, given the text of its own moment and that of the present
/// one.
pub fn started_date_time(own: Option<String>, now: Option<String>) -> (r: String)
    ensures
        r@ == started_text(opt_string(own), opt_string(now)),
{
    match own {
        Some(s) => s,
        None => match now {
            Some(s) => s,
            None => "1970-01-01T00:00:00Z".to_owned(),
        },
    }
}

/// The text may stand for when a request started at the given moment: it is that of the
/// moment where it can be written, and in any case that of some moment.
pub open spec fn started_fits(nanos: Option<i128>, text: Seq<char>) -> bool {
    &&& nanos matches Some(n) ==> (rfc3339_writes(n as int) ==> text == rfc3339_text(n as int))
    &&& text == "1970-01-01T00:00:00Z"@ || exists|n: int|
        rfc3339_writes(n) && text == #[trigger] rfc3339_text(n)
}

/// The RFC 3339 text of a moment given in nanoseconds since the start of 1970. Without
/// a moment that can be written it is the text of the present moment, or of the start of
/// 1970 where that cannot be written either. Which moment is present is left to the clock.
pub fn har_wall_time_to_rfc3339(nanos: Option<i128>) -> (r: String)
    ensures
        started_fits(nanos, r@),
{
    let own = match nanos {
        Some(n) => format_rfc3339(n),
        None => None,
    };
    if own.is_some() {
        started_date_time(own, None)
    } else {
        started_date_time(own, format_now())
    }
}

/// The moment at which a request started, given the nanoseconds since the start of 1970
/// that its wall time makes; none where that time is not more than zero.
pub open spec fn start_moment(e: HarEntry, nanos: i128) -> Option<i128> {
    if e.wall_time.positive() {
        Some(nanos)
    } else {
        None
    }
}

/// A request that is ready for the export: what was captured of it, when it started, the
/// lengths of its phases, and the sum of those that make up its total time (see
/// `timing_values` and `total_terms`). The sum is taken as it is: it is a floating-point
/// number.
#[derive(PartialEq, Eq, Debug)]
pub struct Recorded {
    entry: HarEntry,
    moment: Option<i128>,
    started: String,
    values: Option<TimingValues>,
    total: Real,
}

impl Recorded {
    #[verifier::type_invariant]
    spec fn dated(self) -> bool {
        started_fits(self.moment, self.started@)
    }

    /// What was captured of the request.
    pub closed spec fn entry(self) -> HarEntry {
        self.entry
    }

    /// The moment at which the request started, where it is known.
    pub closed spec fn moment(self) -> Option<i128> {
        self.moment
    }

    /// The text of when the request started.
    pub closed spec fn started(self) -> Seq<char> {
        self.started@
    }

    /// The lengths of the phases that were measured.
    pub closed spec fn values(self) -> Option<TimingValues> {
        self.values
    }

    /// The sum of the lengths that make up the total time.
    pub closed spec fn total(self) -> Real {
        self.total
    }

    /// The HAR 1.2 entry of the request.
    pub open spec fn object(self) -> JsonV {
        let counted = entry_values(self.entry(), self.values());
        entry_object(
            self.entry(),
            self.started(),
            entry_total(counted, self.total()),
            timings_object(counted),
        )
    }

    /// A request that is ready for the export, given its wall time in nanoseconds, the
    /// lengths of its phases and their sum. The text of when it started is left to the
    /// clock where the wall time cannot be written.
    pub fn new(entry: HarEntry, nanos: i128, values: Option<TimingValues>, total: Real) -> (r: Recorded)
        ensures
            r.entry() == entry,
            r.moment() == start_moment(entry, nanos),
            started_fits(r.moment(), r.started()),
            r.values() == values,
            r.total() == total,
    {
        let moment = if Num::Float(entry.wall_time).is_positive() {
            Some(nanos)
        } else {
            None
        };
        let started = har_wall_time_to_rfc3339(moment);
        Recorded { entry, moment, started, values, total }
    }
}

/// The HAR 1.2 entry of a request. It tells the moment at which the request started,
/// where that can be written.
pub fn har_entry_to_json(e: &Recorded) -> (r: Json)
    ensures
        r.view() == e.object(),
        started_fits(e.moment(), e.started()),
{
    proof {
        use_type_invariant(e);
    }
    let counted = timing_values(&e.entry, e.values);
    let time = match counted {
        Some(_) => e.total,
        None => Real { bits: 0 },
    };
    let timings = timings_json(counted);
    let f = Fields::new().with("startedDateTime", Json::text(&e.started)).with(
        "time",
        Json::Number(Num::Float(time)),
    ).with("request", har_request(&e.entry)).with("response", har_response(&e.entry)).with(
        "cache",
        Fields::new().done(),
    ).with("timings", timings).with("_resourceType", Json::text(&e.entry.resource_type));
    assert(f.view() == entry_object(e.entry, e.started@, time, timings.view())->Object_0);
    f.done()
}

/// Where a HAR export goes: to the given path, or to a file of its own in the directory
/// for exports.
#[derive(PartialEq, Eq, Debug)]
pub enum HarTarget {
    Path(String),
    InDirectory(String),
}

/// Where a HAR export goes that is written at the given time in milliseconds.
pub fn har_output_path(explicit_path: Option<&str>, millis: u128) -> (r: HarTarget)
    ensures
        match opt_str(explicit_path) {
            Some(p) => r matches HarTarget::Path(path) && path@ == p,
            None => r matches HarTarget::InDirectory(name) && name@ == "har-"@ + decimal(
                millis as nat,
            ) + ".har"@,
        },
{
    match explicit_path {
        Some(p) => HarTarget::Path(p.to_owned()),
        None => {
            let mut name = "har-".to_owned();
            name.append(decimal_text(millis).as_str());
            name.append(".har");
            HarTarget::InDirectory(name)
        },
    }
}

/// The directory for HAR exports, as the parts of its path below the user's home
/// directory, or below the directory for temporary files where there is no home.
pub open spec fn har_dir(has_home: bool) -> Seq<Seq<char>> {
    if has_home {
        seq![".agent-browser"@, "tmp"@, "har"@]
    } else {
        seq!["agent-browser"@, "har"@]
    }
}

/// The directory for HAR exports, as the parts of its path.
pub fn get_har_dir(has_home: bool) -> (r: Vec<String>)
    ensures
        texts(r@) == har_dir(has_home),
{
    let mut out: Vec<String> = Vec::new();
    if has_home {
        out.push(".agent-browser".to_owned());
        out.push("tmp".to_owned());
    } else {
        out.push("agent-browser".to_owned());
    }
    out.push("har".to_owned());
    assert(texts(out@) == har_dir(has_home));
    out
}

/// The name and the version of a browser: what stands before and behind the first `/`
/// of its product text.
pub open spec fn browser_object(version: JsonV) -> Option<JsonV> {
    match version.str_at("product"@) {
        Some(product) => {
            let (name, number) = or_else(cut_at(product, '/'), (product, Seq::<char>::empty()));
            Some(
                JsonV::Object(
                    seq![("name"@, JsonV::Str(name)), ("version"@, JsonV::Str(number))],
                ),
            )
        },
        None => None,
    }
}

/// The HAR `browser` object, from what the browser tells of its version.
pub fn browser_metadata_from_version(version: &Json) -> (r: Option<Json>)
    ensures
        seen_value(r) == browser_object(version.view()),
{
    match version.str_at("product") {
        Some(product) => {
            let (name, number) = match split_once(product, '/') {
                Some((n, v)) => (n.to_owned(), v.to_owned()),
                None => (product.to_owned(), String::new()),
            };
            let f = Fields::new().with("name", Json::text(&name)).with(
                "version",
                Json::text(&number),
            );
            assert(f.view() == browser_object(version.view()).unwrap()->Object_0);
            Some(f.done())
        },
        None => None,
    }
}

/// The HAR 1.2 document of some entries, with the browser where it is known.
pub open spec fn har_document(
    entries: Seq<JsonV>,
    version: Seq<char>,
    browser: Option<JsonV>,
) -> JsonV {
    let log = seq![
        ("version"@, JsonV::Str("1.2"@)),
        (
            "creator"@,
            JsonV::Object(
                seq![
                    ("name"@, JsonV::Str("agent-browser"@)),
                    ("version"@, JsonV::Str(version)),
                ],
            ),
        ),
        ("entries"@, JsonV::Array(entries)),
    ];
    let log = match browser {
        Some(b) => log.push(("browser"@, b)),
        None => log,
    };
    JsonV::Object(seq![("log"@, JsonV::Object(log))])
}

/// The HAR 1.2 document of some entries, made by the given version of the program.
pub fn har_log(entries: Vec<Json>, version: &str, browser: Option<Json>) -> (r: Json)
    ensures
        r.view() == har_document(items_view(entries@), version@, seen_value(browser)),
{
    let creator = Fields::new().with("name", Json::text("agent-browser")).with(
        "version",
        Json::text(version),
    );
    assert(creator.view() == seq![
        ("name"@, JsonV::Str("agent-browser"@)),
        ("version"@, JsonV::Str(version@)),
    ]);
    let log = Fields::new().with("version", Json::text("1.2")).with(
        "creator",
        creator.done(),
    ).with("entries", Json::Array(entries));
    assert(log.view() == seq![
        ("version"@, JsonV::Str("1.2"@)),
        (
            "creator"@,
            JsonV::Object(
                seq![
                    ("name"@, JsonV::Str("agent-browser"@)),
                    ("version"@, JsonV::Str(version@)),
                ],
            ),
        ),
        ("entries"@, JsonV::Array(items_view(entries@))),
    ]);
    let log = match browser {
        Some(b) => log.with("browser", b),
        None => log,
    };
    let f = Fields::new().with("log", log.done());
    assert(f.view() == seq![("log"@, JsonV::Object(log.view()))]);
    f.done()
}

/// The capture of network traffic: whether it is on, and what it has captured.
#[derive(PartialEq, Eq, Debug)]
pub struct HarRecorder {
    pub recording: bool,
    pub entries: Vec<HarEntry>,
}

impl HarRecorder {
    /// Starts a capture with no entries.
    pub fn begin(&mut self)
        ensures
            final(self).recording,
            final(self).entries@ == Seq::<HarEntry>::empty(),
    {
        self.recording = true;
        self.entries = Vec::new();
    }

    /// Ends the capture and hands out its entries, in order.
    pub fn finish(&mut self) -> (r: Vec<HarEntry>)
        ensures
            r@ == old(self).entries@,
            !final(self).recording,
            final(self).entries@ == Seq::<HarEntry>::empty(),
    {
        let mut entries: Vec<HarEntry> = Vec::new();
        std::mem::swap(&mut entries, &mut self.entries);
        self.recording = false;
        entries
    }
}

/// The commands that turn on a session's network events, for several sessions.
pub open spec fn network_commands(sessions: Seq<Seq<char>>) -> Seq<CommandV> {
    sessions.map_values(|s: Seq<char>| bare_command("Network.enable"@, s))
}

/// The contents of several commands.
pub open spec fn commands_view(list: Seq<CdpCommand>) -> Seq<CommandV> {
    list.map_values(|c: CdpCommand| c.view())
}

/// How a capture starts: the command that has to succeed, those to the frames that may
/// fail, and the answer.
#[derive(PartialEq, Eq, Debug)]
pub struct HarStart {
    pub command: CdpCommand,
    pub frame_commands: Vec<CdpCommand>,
    pub reply: Json,
}

/// Starts the capture of network traffic: of the active session, and of the frames that
/// have sessions of their own.
pub fn handle_har_start(browser: &Browser, frames: &Vec<String>) -> (r: Result<HarStart, String>)
    ensures
        match browser.session_view() {
            Ok(session) => r matches Ok(start) && start.command.view() == bare_command(
                "Network.enable"@,
                session,
            ) && commands_view(start.frame_commands@) == network_commands(texts(frames@))
                && start.reply.view() == JsonV::Object(seq![("started"@, JsonV::Bool(true))]),
            Err(e) => r matches Err(m) && m@ == e,
        },
{
    match browser.session() {
        Ok(session) => {
            let mut list: Vec<CdpCommand> = Vec::new();
            let ghost all = network_commands(texts(frames@));
            for i in 0..frames.len()
                invariant
                    all == network_commands(texts(frames@)),
                    commands_view(list@) == all.take(i as int),
            {
                let ghost before = commands_view(list@);
                let c = CdpCommand::bare("Network.enable", &frames[i]);
                list.push(c);
                assert(commands_view(list@) == before.push(c.view()));
                assert(all.take(i + 1) == all.take(i as int).push(all[i as int]));
            }
            assert(all.take(frames@.len() as int) == all);
            let f = Fields::new().with("started", Json::truth(true));
            assert(f.view() == seq![("started"@, JsonV::Bool(true))]);
            Ok(
                HarStart {
                    command: CdpCommand::bare("Network.enable", &session),
                    frame_commands: list,
                    reply: f.done(),
                },
            )
        },
        Err(e) => Err(e),
    }
}

/// The HAR 1.2 entries of several requests, in order.
pub open spec fn recorded_objects(list: Seq<Recorded>) -> Seq<JsonV> {
    list.map_values(|e: Recorded| e.object())
}

/// The answer to the end of a capture: where it was written, and how many requests it
/// holds.
pub open spec fn stop_answer(path: Seq<char>, requests: nat) -> JsonV {
    JsonV::Object(
        seq![
            ("path"@, JsonV::Str(path)),
            ("requestCount"@, JsonV::Number(Num::Unsigned(requests as u64))),
        ],
    )
}

/// The answer to the end of a capture.
pub fn har_stop_reply(path: &str, requests: usize) -> (r: Json)
    ensures
        r.view() == stop_answer(path@, requests as nat),
{
    let f = Fields::new().with("path", Json::text(path)).with(
        "requestCount",
        Json::Number(Num::Unsigned(requests as u64)),
    );
    assert(f.view() == stop_answer(path@, requests as nat)->Object_0);
    f.done()
}

/// How a capture ends: the document to write, and the answer once it is written.
#[derive(PartialEq, Eq, Debug)]
pub struct HarStop {
    pub document: Json,
    pub reply: Json,
}

/// Ends the capture of network traffic with the given requests, which go to a file at
/// the given path.
pub fn handle_har_stop(
    recorded: &Vec<Recorded>,
    path: &str,
    version: &str,
    browser: Option<Json>,
) -> (r: HarStop)
    ensures
        r.document.view() == har_document(
            recorded_objects(recorded@),
            version@,
            seen_value(browser),
        ),
        r.reply.view() == stop_answer(path@, recorded@.len()),
        forall|i: int|
            0 <= i < recorded@.len() ==> started_fits(
                #[trigger] recorded@[i].moment(),
                recorded@[i].started(),
            ),
{
    let ghost all = recorded_objects(recorded@);
    let mut entries: Vec<Json> = Vec::new();
    assert(items_view(entries@) == all.take(0));
    for i in 0..recorded.len()
        invariant
            all == recorded_objects(recorded@),
            items_view(entries@) == all.take(i as int),
            forall|j: int|
                0 <= j < i ==> started_fits(
                    #[trigger] recorded@[j].moment(),
                    recorded@[j].started(),
                ),
    {
        let e = har_entry_to_json(&recorded[i]);
        proof {
            lemma_items_push(entries@, e);
            assert(all.take(i + 1) == all.take(i as int).push(all[i as int]));
        }
        entries.push(e);
    }
    assert(all.take(recorded@.len() as int) == all);
    HarStop {
        document: har_log(entries, version, browser),
        reply: har_stop_reply(path, recorded.len()),
    }
}

/// A video recording to start: its file, the session to record, and the answer.
#[derive(PartialEq, Eq, Debug)]
pub struct VideoStart {
    pub path: String,
    pub session: String,
    pub reply: Json,
}

/// The answer once a video recording runs.
pub open spec fn video_started() -> JsonV {
    JsonV::Object(
        seq![
            ("started"@, JsonV::Bool(true)),
            (
                "note"@,
                JsonV::Str("Video recording started. Use video_stop to save the recording."@),
            ),
        ],
    )
}

/// Starts a video recording, unless one is running.
pub fn handle_video_start(cmd: &Json, active: bool, browser: &Browser) -> (r: Result<
    VideoStart,
    String,
>)
    ensures
        match required(cmd.view(), "path"@) {
            Err(e) => r matches Err(m) && m@ == e,
            Ok(path) => if active {
                r matches Err(m) && m@ == "A recording is already in progress"@
            } else {
                match browser.session_view() {
                    Err(e) => r matches Err(m) && m@ == e,
                    Ok(session) => r matches Ok(start) && start.path@ == path && start.session@
                        == session && start.reply.view() == video_started(),
                }
            },
        },
{
    let path = req_str(cmd, "path")?;
    if active {
        return Err("A recording is already in progress".to_owned());
    }
    let session = browser.session()?;
    let f = Fields::new().with("started", Json::truth(true)).with(
        "note",
        Json::text("Video recording started. Use video_stop to save the recording."),
    );
    assert(f.view() == video_started()->Object_0);
    Ok(VideoStart { path, session, reply: f.done() })
}

/// The answer to the end of a video recording where none was started; nothing where one
/// runs, which then has to be ended.
pub fn handle_video_stop(active: bool) -> (r: Option<Json>)
    ensures
        seen_value(r) == if active {
            None::<JsonV>
        } else {
            Some(
                JsonV::Object(
                    seq![
                        ("stopped"@, JsonV::Bool(false)),
                        (
                            "note"@,
                            JsonV::Str(
                                "No video recording was started. Use recording_stop if you used recording_start."@,
                            ),
                        ),
                    ],
                ),
            )
        },
{
    if active {
        return None;
    }
    let f = Fields::new().with("stopped", Json::truth(false)).with(
        "note",
        Json::text(
            "No video recording was started. Use recording_stop if you used recording_start.",
        ),
    );
    assert(f.view() == seq![
        ("stopped"@, JsonV::Bool(false)),
        (
            "note"@,
            JsonV::Str(
                "No video recording was started. Use recording_stop if you used recording_start."@,
            ),
        ),
    ]);
    Some(f.done())
}

/// A cookie as a `Cookie` header writes it.
pub open spec fn cookie_text(c: (Seq<char>, Seq<char>)) -> Seq<char> {
    c.0.push('=') + c.1
}

/// The `Cookie` header that carries some cookies.
pub open spec fn cookie_header(cookies: Seq<(Seq<char>, Seq<char>)>) -> Seq<char> {
    joined(cookies.map_values(|c: (Seq<char>, Seq<char>)| cookie_text(c)), seq![';', ' '])
}

/// The cookie can be written: its name holds no `=`, neither part holds a `;`, and none
/// has white space at its ends.
pub open spec fn writable(c: (Seq<char>, Seq<char>)) -> bool {
    &&& !c.0.contains('=')
    &&& !c.0.contains(';')
    &&& !c.1.contains(';')
    &&& trimmed(c.0) == c.0
    &&& trimmed(c.1) == c.1
}

pub(crate) proof fn lemma_cookie_text(c: (Seq<char>, Seq<char>))
    requires
        writable(c),
    ensures
        forall|i: int| 0 <= i < cookie_text(c).len() ==> #[trigger] cookie_text(c)[i] != ';',
        cookie_text(c).len() > 0,
        trimmed(cookie_text(c)) == cookie_text(c),
        trimmed(seq![' '] + cookie_text(c)) == cookie_text(c),
        cookie_pair(cookie_text(c)) == c,
{
    let t = cookie_text(c);
    assert forall|i: int| 0 <= i < t.len() implies #[trigger] t[i] != ';' by {
        if i < c.0.len() {
            assert(t[i] == c.0[i]);
        } else if i > c.0.len() {
            assert(t[i] == c.1[i - c.0.len() - 1]);
        }
    }
    lemma_trimmed_ends(c.0);
    lemma_trimmed_ends(c.1);
    assert(!is_white('='));
    if c.0.len() > 0 {
        assert(t[0] == c.0[0]);
    } else {
        assert(t[0] == '=');
    }
    if c.1.len() > 0 {
        assert(t.last() == c.1.last());
    } else {
        assert(t.last() == '=');
    }
    lemma_trimmed_keeps(t);
    assert forall|j: int| 0 <= j < c.0.len() implies t[j] != '=' by {
        assert(t[j] == c.0[j]);
    }
    lemma_first_index(t, '=', c.0.len() as int);
    assert(t.take(c.0.len() as int) == c.0);
    assert(t.skip(c.0.len() as int + 1) == c.1);
}

proof fn lemma_cookies_read_back(cookies: Seq<(Seq<char>, Seq<char>)>)
    requires
        cookies.len() > 0,
        forall|i: int| 0 <= i < cookies.len() ==> writable(#[trigger] cookies[i]),
    ensures
        cookies_in(pieces(cookie_header(cookies), seq![';'])) == cookies,
    decreases cookies.len(),
{
    let text = |c: (Seq<char>, Seq<char>)| cookie_text(c);
    let all = cookies.map_values(text);
    let c = cookies.last();
    let t = cookie_text(c);
    assert(writable(cookies[cookies.len() - 1]));
    lemma_cookie_text(c);
    let none = Seq::<(Seq<char>, Seq<char>)>::empty();
    if cookies.len() == 1 {
        assert(cookie_header(cookies) == t);
        assert forall|i: int| 0 <= i < t.len() implies !seq![';'].contains(#[trigger] t[i]) by {}
        lemma_one_piece(t, seq![';']);
        assert(seq![t].drop_last() == Seq::<Seq<char>>::empty());
        assert(cookies_in(seq![t].drop_last()) == none);
        assert(none.push(c) == cookies);
    } else {
        let before = cookies.drop_last();
        assert forall|i: int| 0 <= i < before.len() implies writable(#[trigger] before[i]) by {
            assert(before[i] == cookies[i]);
        }
        lemma_cookies_read_back(before);
        assert(all.drop_last() == before.map_values(text));
        let h = cookie_header(before);
        let b = seq![' '] + t;
        assert(cookie_header(cookies) == h + seq![';', ' '] + t);
        assert(h + seq![';', ' '] + t == h.push(';') + b);
        assert forall|i: int| 0 <= i < b.len() implies !seq![';'].contains(#[trigger] b[i]) by {
            if i > 0 {
                assert(b[i] == t[i - 1]);
            }
        }
        assert(seq![';'].contains(';')) by {
            assert(seq![';'][0] == ';');
        }
        lemma_last_piece(h, ';', b, seq![';']);
        let ps = pieces(h, seq![';']);
        assert(ps.push(b).drop_last() == ps);
        assert(before.push(c) == cookies);
    }
}

/// The cookies of a request are read back from the header that carries them, whatever
/// they are called and hold.
pub proof fn law_cookies_read_back(cookies: Seq<(Seq<char>, Seq<char>)>)
    requires
        forall|i: int| 0 <= i < cookies.len() ==> writable(#[trigger] cookies[i]),
    ensures
        cookies_in(pieces(cookie_header(cookies), seq![';'])) == cookies,
{
    if cookies.len() == 0 {
        let none = Seq::<char>::empty();
        assert(cookie_header(cookies) == none);
        let parts = pieces(none, seq![';']);
        reveal_with_fuel(cookies_in, 2);
        assert(parts == seq![none]);
        assert(parts.drop_last() == Seq::<Seq<char>>::empty());
        assert(cookies_in(parts.drop_last()) == Seq::<(Seq<char>, Seq<char>)>::empty());
        assert(trimmed(none) == none);
        assert(cookies == Seq::<(Seq<char>, Seq<char>)>::empty());
    } else {
        lemma_cookies_read_back(cookies);
    }
}

/// A phase that did not occur has no place in the timing of a request: where one of its
/// two moments is negative there is no span for it.
pub proof fn law_absent_phase_has_no_span(t: JsonV, finished: Option<Real>)
    ensures
        !timing_at(t, "dnsStart"@).not_negative() || !timing_at(t, "dnsEnd"@).not_negative()
            ==> timing_plan(t, finished).dns is None,
        !timing_at(t, "connectStart"@).not_negative() || !timing_at(
            t,
            "connectEnd"@,
        ).not_negative() ==> timing_plan(t, finished).connect is None,
        !timing_at(t, "sslStart"@).not_negative() || !timing_at(t, "sslEnd"@).not_negative()
            ==> timing_plan(t, finished).ssl is None,
{
}

/// What the fields hold under a key once a length was added under a name.
proof fn lemma_field_of_length(
    fields: Seq<(Seq<char>, JsonV)>,
    name: Seq<char>,
    x: Option<Real>,
    key: Seq<char>,
)
    ensures
        field(with_length(fields, name, x), key) == match field(fields, key) {
            Some(v) => Some(v),
            None => match x {
                Some(x) => if name == key {
                    Some(JsonV::Number(Num::Float(x)))
                } else {
                    None
                },
                None => None,
            },
        },
    decreases fields.len(),
{
    if x is Some {
        let more = with_length(fields, name, x);
        if fields.len() == 0 {
            assert(more.skip(1) == fields);
        } else {
            assert(more.skip(1) == with_length(fields.skip(1), name, x));
            lemma_field_of_length(fields.skip(1), name, x, key);
        }
    }
}

/// A length as a JSON number.
pub open spec fn length_json(x: Option<Real>) -> Option<JsonV> {
    match x {
        Some(x) => Some(JsonV::Number(Num::Float(x))),
        None => None,
    }
}

/// What the `timings` object holds under each of its keys.
pub(crate) proof fn lemma_timing_fields(v: TimingValues)
    ensures
        timings_object(Some(v)).get("send"@) == length_json(Some(floored(v.send))),
        timings_object(Some(v)).get("wait"@) == length_json(Some(floored(v.wait))),
        timings_object(Some(v)).get("receive"@) == length_json(Some(floored(v.receive))),
        timings_object(Some(v)).get("blocked"@) == length_json(more_than_zero(v.blocked)),
        timings_object(Some(v)).get("dns"@) == length_json(proper(v.dns)),
        timings_object(Some(v)).get("connect"@) == length_json(proper(v.connect)),
        timings_object(Some(v)).get("ssl"@) == length_json(proper(v.ssl)),
{
    reveal_strlit("send");
    reveal_strlit("wait");
    reveal_strlit("receive");
    reveal_strlit("blocked");
    reveal_strlit("dns");
    reveal_strlit("connect");
    reveal_strlit("ssl");
    assert("send"@.len() == 4 && "wait"@.len() == 4 && "receive"@.len() == 7);
    assert("blocked"@.len() == 7 && "dns"@.len() == 3 && "connect"@.len() == 7);
    assert("ssl"@.len() == 3);
    assert("send"@[0] == 's' && "wait"@[0] == 'w');
    assert("receive"@[0] == 'r' && "blocked"@[0] == 'b' && "connect"@[0] == 'c');
    assert("dns"@[0] == 'd' && "ssl"@[0] == 's');
    lemma_timing_field(v, "send"@);
    lemma_timing_field(v, "wait"@);
    lemma_timing_field(v, "receive"@);
    lemma_timing_field(v, "blocked"@);
    lemma_timing_field(v, "dns"@);
    lemma_timing_field(v, "connect"@);
    lemma_timing_field(v, "ssl"@);
}

/// The required fields of the `timings` object.
spec fn required_fields(v: TimingValues) -> Seq<(Seq<char>, JsonV)> {
    seq![
        ("send"@, JsonV::Number(Num::Float(floored(v.send)))),
        ("wait"@, JsonV::Number(Num::Float(floored(v.wait)))),
        ("receive"@, JsonV::Number(Num::Float(floored(v.receive)))),
    ]
}

proof fn lemma_timing_field(v: TimingValues, key: Seq<char>)
    ensures
        timings_object(Some(v)).get(key) == if key == "send"@ {
            length_json(Some(floored(v.send)))
        } else if key == "wait"@ {
            length_json(Some(floored(v.wait)))
        } else if key == "receive"@ {
            length_json(Some(floored(v.receive)))
        } else if key == "blocked"@ && more_than_zero(v.blocked) is Some {
            length_json(more_than_zero(v.blocked))
        } else if key == "dns"@ && proper(v.dns) is Some {
            length_json(proper(v.dns))
        } else if key == "connect"@ && proper(v.connect) is Some {
            length_json(proper(v.connect))
        } else if key == "ssl"@ {
            length_json(proper(v.ssl))
        } else {
            None
        },
{
    let start = required_fields(v);
    let b = with_length(start, "blocked"@, more_than_zero(v.blocked));
    let d = with_length(b, "dns"@, proper(v.dns));
    let c = with_length(d, "connect"@, proper(v.connect));
    reveal_with_fuel(field, 4);
    assert(start.skip(1)[0] == start[1]);
    assert(start.skip(1).skip(1)[0] == start[2]);
    assert(start.skip(1).skip(1).skip(1).len() == 0);
    lemma_field_of_length(start, "blocked"@, more_than_zero(v.blocked), key);
    lemma_field_of_length(b, "dns"@, proper(v.dns), key);
    lemma_field_of_length(d, "connect"@, proper(v.connect), key);
    lemma_field_of_length(c, "ssl"@, proper(v.ssl), key);
}

/// The `timings` object holds a length for a phase only where the phase has one: what is
/// absent or negative leaves its field out.
pub proof fn law_absent_phase_has_no_field(v: TimingValues)
    ensures
        timings_object(Some(v)).get("blocked"@) is Some <==> more_than_zero(v.blocked) is Some,
        timings_object(Some(v)).get("dns"@) is Some <==> proper(v.dns) is Some,
        timings_object(Some(v)).get("connect"@) is Some <==> proper(v.connect) is Some,
        timings_object(Some(v)).get("ssl"@) is Some <==> proper(v.ssl) is Some,
{
    lemma_timing_fields(v);
}

/// In the entry of a request there is no field for a phase that its timing data gives a
/// negative moment for, whatever lengths were handed in.
pub proof fn law_entry_leaves_absent_phases_out(e: HarEntry, t: JsonV, v: TimingValues)
    requires
        seen_value(e.cdp_timing) == Some(t),
    ensures
        !timing_at(t, "dnsStart"@).not_negative() || !timing_at(t, "dnsEnd"@).not_negative()
            ==> timings_object(entry_values(e, Some(v))).get("dns"@) is None,
        !timing_at(t, "connectStart"@).not_negative() || !timing_at(
            t,
            "connectEnd"@,
        ).not_negative() ==> timings_object(entry_values(e, Some(v))).get("connect"@) is None,
        !timing_at(t, "sslStart"@).not_negative() || !timing_at(t, "sslEnd"@).not_negative()
            ==> timings_object(entry_values(e, Some(v))).get("ssl"@) is None,
{
    law_absent_phase_has_no_span(t, e.loading_finished_timestamp);
    lemma_timing_fields(fitting(timing_plan(t, e.loading_finished_timestamp), v));
}

/// Every value is a number that is at least zero.
pub open spec fn all_lengths(fields: Seq<(Seq<char>, JsonV)>) -> bool {
    forall|i: int|
        0 <= i < fields.len() ==> ((#[trigger] fields[i]).1 matches JsonV::Number(n)
            && n.not_negative())
}

proof fn lemma_all_lengths(fields: Seq<(Seq<char>, JsonV)>, name: Seq<char>, x: Option<Real>)
    requires
        all_lengths(fields),
        x matches Some(y) ==> y.not_negative(),
    ensures
        all_lengths(with_length(fields, name, x)),
{
    let more = with_length(fields, name, x);
    assert forall|i: int| 0 <= i < more.len() implies ((#[trigger] more[i]).1 matches JsonV::Number(
        n,
    ) && n.not_negative()) by {
        if i < fields.len() {
            assert(more[i] == fields[i]);
        }
    }
}

/// The `timings` object always holds `send`, `wait` and `receive`; none of its lengths is
/// negative, and `blocked` is more than zero where it is there.
pub proof fn law_lengths_are_not_negative(v: Option<TimingValues>)
    ensures
        timings_object(v).get("send"@) is Some,
        timings_object(v).get("wait"@) is Some,
        timings_object(v).get("receive"@) is Some,
        timings_object(v) matches JsonV::Object(fields) && all_lengths(fields),
        timings_object(v).number_at("blocked"@) matches Some(n) ==> n.positive(),
{
    reveal_strlit("send");
    reveal_strlit("wait");
    reveal_strlit("receive");
    reveal_strlit("blocked");
    match v {
        Some(v) => {
            lemma_timing_fields(v);
            let start = required_fields(v);
            let b = with_length(start, "blocked"@, more_than_zero(v.blocked));
            let d = with_length(b, "dns"@, proper(v.dns));
            let c = with_length(d, "connect"@, proper(v.connect));
            assert(all_lengths(start));
            lemma_all_lengths(start, "blocked"@, more_than_zero(v.blocked));
            lemma_all_lengths(b, "dns"@, proper(v.dns));
            lemma_all_lengths(d, "connect"@, proper(v.connect));
            lemma_all_lengths(c, "ssl"@, proper(v.ssl));
        },
        None => {
            let fields = timings_object(v)->Object_0;
            reveal_with_fuel(field, 4);
            assert("send"@.len() == 4 && "wait"@.len() == 4 && "receive"@.len() == 7);
            assert("blocked"@.len() == 7 && "receive"@[0] == 'r' && "blocked"@[0] == 'b');
            assert(fields.skip(1)[0] == fields[1]);
            assert(fields.skip(1).skip(1)[0] == fields[2]);
            assert(fields.skip(1).skip(1).skip(1).len() == 0);
        },
    }
}

/// The length that the `timings` object shows under a key, zero where it shows none.
pub open spec fn shown_length(v: TimingValues, key: Seq<char>) -> Real {
    match timings_object(Some(v)).number_at(key) {
        Some(Num::Float(x)) => x,
        _ => zero(),
    }
}

/// The total time is made up of the lengths as they are shown, in a fixed order, and
/// leaves the TLS handshake out; none of its terms is negative.
pub proof fn law_total_counts_what_is_shown(v: TimingValues)
    ensures
        total_terms_of(v) == seq![
            shown_length(v, "blocked"@),
            shown_length(v, "dns"@),
            shown_length(v, "connect"@),
            shown_length(v, "send"@),
            shown_length(v, "wait"@),
            shown_length(v, "receive"@),
        ],
        forall|i: int|
            0 <= i < total_terms_of(v).len() ==> (#[trigger] total_terms_of(v)[i]).not_negative(),
{
    lemma_timing_fields(v);
}

/// An export has an entry for every request that was captured, in the order in which
/// they were, and counts them.
pub proof fn law_export_has_every_request(
    list: Seq<Recorded>,
    path: Seq<char>,
    version: Seq<char>,
    browser: Option<JsonV>,
    i: int,
)
    requires
        0 <= i < list.len() <= u64::MAX,
    ensures
        har_document(recorded_objects(list), version, browser).get("log"@) matches Some(log) && (
        log.get("entries"@) matches Some(JsonV::Array(entries)) && entries.len() == list.len()
            && entries[i] == list[i].object()),
        stop_answer(path, list.len()).u64_at("requestCount"@) == Some(list.len() as u64),
{
    reveal_with_fuel(field, 4);
    reveal_strlit("version");
    reveal_strlit("creator");
    reveal_strlit("entries");
    reveal_strlit("browser");
    reveal_strlit("path");
    reveal_strlit("requestCount");
    assert("version"@[0] != "entries"@[0]);
    assert("creator"@[0] != "entries"@[0]);
    assert("browser"@[0] != "entries"@[0]);
    assert("path"@.len() != "requestCount"@.len());
}

} // verus!
