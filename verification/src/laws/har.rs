//! Captured traffic: what is written down of it.
use vstd::prelude::*;
use vstd::string::*;

use crate::cdp::Browser;
use crate::fetch::headers_json;
use crate::har::{
    browser_metadata_from_version, commands_view, cookie_header, cookie_pair, cookie_text,
    cookies_in, cookies_sent, entry_values, get_har_dir, handle_har_start, handle_har_stop,
    handle_video_start, handle_video_stop, har_cdp_protocol_to_http_version, har_compute_timings,
    har_entry_to_json, har_extract_headers, har_log, har_output_path, har_parse_query_string,
    har_parse_request_cookies, har_wall_time_to_rfc3339, header_value, law_cookies_read_back,
    media_type, network_commands, query_objects, request_cookies, request_object, response_cookies,
    response_object, set_cookies, timing_values, timings_json, total_terms, writable, HarEntry,
    HarRecorder, HarStart, HarStop, HarTarget, Recorded, TimingPlan, TimingValues, VideoStart,
};
use crate::json::{items_view, lemma_field_found, opt_string, seen_value, Json, JsonV, Num, Real};
use crate::laws::cdp::refusal;
use crate::laws::fetch::{lemma_lists_headers, lists_headers};
use crate::number::decimal;
use crate::outside::{opt_url, rfc3339_text, rfc3339_writes, url_of, UrlParts};
use crate::text::{
    ascii_lowered, equal_ignoring_case, first_index, lemma_first_index, lemma_last_piece,
    lemma_one_piece, lemma_trimmed_ends, lemma_trimmed_keeps, pairs, pieces, texts, trimmed,
};

verus! {

proof fn lemma_entry_keys()
    ensures
        "startedDateTime"@ != "time"@,
        "startedDateTime"@ != "request"@,
        "startedDateTime"@ != "response"@,
        "startedDateTime"@ != "cache"@,
        "startedDateTime"@ != "timings"@,
        "startedDateTime"@ != "_resourceType"@,
        "time"@ != "request"@,
        "time"@ != "response"@,
        "time"@ != "cache"@,
        "time"@ != "timings"@,
        "time"@ != "_resourceType"@,
        "request"@ != "response"@,
        "request"@ != "cache"@,
        "request"@ != "timings"@,
        "request"@ != "_resourceType"@,
        "response"@ != "cache"@,
        "response"@ != "timings"@,
        "response"@ != "_resourceType"@,
        "cache"@ != "timings"@,
        "cache"@ != "_resourceType"@,
        "timings"@ != "_resourceType"@,
{
    reveal_strlit("startedDateTime");
    reveal_strlit("time");
    reveal_strlit("request");
    reveal_strlit("response");
    reveal_strlit("cache");
    reveal_strlit("timings");
    reveal_strlit("_resourceType");
    assert("startedDateTime"@.len() == 15 && "time"@.len() == 4 && "request"@.len() == 7
        && "response"@.len() == 8 && "cache"@.len() == 5 && "timings"@.len() == 7
        && "_resourceType"@.len() == 13);
    assert("request"@[0] != "timings"@[0]);
}

/// What an entry holds under each of its keys.
proof fn lemma_entry(e: Recorded)
    ensures
        e.object().get("startedDateTime"@) == Some(JsonV::Str(e.started())),
        e.object().get("request"@) == Some(request_object(e.entry())),
        e.object().get("response"@) == Some(response_object(e.entry())),
        e.object().get("_resourceType"@) == Some(JsonV::Str(e.entry().resource_type@)),
        e.object().get("timings"@) == Some(
            crate::har::timings_object(entry_values(e.entry(), e.values())),
        ),
        e.object().get("time"@) == Some(
            JsonV::Number(
                Num::Float(
                    crate::har::entry_total(entry_values(e.entry(), e.values()), e.total()),
                ),
            ),
        ),
{
    lemma_entry_keys();
    let f = e.object()->Object_0;
    lemma_field_found(f, "startedDateTime"@, 0);
    lemma_field_found(f, "time"@, 1);
    lemma_field_found(f, "request"@, 2);
    lemma_field_found(f, "response"@, 3);
    lemma_field_found(f, "timings"@, 5);
    lemma_field_found(f, "_resourceType"@, 6);
}

proof fn lemma_response_keys()
    ensures
        "status"@ != "statusText"@,
        "status"@ != "httpVersion"@,
        "status"@ != "cookies"@,
        "status"@ != "headers"@,
        "status"@ != "content"@,
        "status"@ != "redirectURL"@,
        "status"@ != "headersSize"@,
        "status"@ != "bodySize"@,
        "statusText"@ != "httpVersion"@,
        "statusText"@ != "cookies"@,
        "statusText"@ != "headers"@,
        "statusText"@ != "content"@,
        "statusText"@ != "redirectURL"@,
        "statusText"@ != "headersSize"@,
        "statusText"@ != "bodySize"@,
        "httpVersion"@ != "cookies"@,
        "httpVersion"@ != "headers"@,
        "httpVersion"@ != "content"@,
        "httpVersion"@ != "redirectURL"@,
        "httpVersion"@ != "headersSize"@,
        "httpVersion"@ != "bodySize"@,
        "cookies"@ != "headers"@,
        "cookies"@ != "content"@,
        "cookies"@ != "redirectURL"@,
        "cookies"@ != "headersSize"@,
        "cookies"@ != "bodySize"@,
        "headers"@ != "content"@,
        "headers"@ != "redirectURL"@,
        "headers"@ != "headersSize"@,
        "headers"@ != "bodySize"@,
        "content"@ != "redirectURL"@,
        "content"@ != "headersSize"@,
        "content"@ != "bodySize"@,
        "redirectURL"@ != "headersSize"@,
        "redirectURL"@ != "bodySize"@,
        "headersSize"@ != "bodySize"@,
        "size"@ != "mimeType"@,
{
    reveal_strlit("status");
    reveal_strlit("statusText");
    reveal_strlit("httpVersion");
    reveal_strlit("cookies");
    reveal_strlit("headers");
    reveal_strlit("content");
    reveal_strlit("redirectURL");
    reveal_strlit("headersSize");
    reveal_strlit("bodySize");
    reveal_strlit("size");
    reveal_strlit("mimeType");
    assert("status"@.len() == 6 && "statusText"@.len() == 10 && "httpVersion"@.len() == 11
        && "cookies"@.len() == 7 && "headers"@.len() == 7 && "content"@.len() == 7
        && "redirectURL"@.len() == 11 && "headersSize"@.len() == 11 && "bodySize"@.len() == 8
        && "size"@.len() == 4 && "mimeType"@.len() == 8);
    assert("cookies"@[0] != "headers"@[0] && "headers"@[0] != "content"@[0]);
    assert("cookies"@[2] != "content"@[2]);
    assert("httpVersion"@[0] != "redirectURL"@[0] && "httpVersion"@[1] != "headersSize"@[1]
        && "redirectURL"@[0] != "headersSize"@[0]);
}

proof fn lemma_response(e: HarEntry)
    ensures
        ({
            let o = response_object(e);
            let content = JsonV::Object(
                seq![
                    ("size"@, JsonV::Number(Num::of_i64(e.response_body_size))),
                    ("mimeType"@, JsonV::Str(media_type(e.mime_type@))),
                ],
            );
            &&& o.i64_at("status"@) == Some(
                match e.status {
                    Some(s) => s,
                    None => 0i64,
                },
            )
            &&& o.str_at("statusText"@) == Some(e.status_text@)
            &&& o.str_at("httpVersion"@) == Some(e.http_version@)
            &&& o.get("cookies"@) == Some(headers_json(set_cookies(pairs(e.response_headers@))))
            &&& o.get("headers"@) == Some(headers_json(pairs(e.response_headers@)))
            &&& o.get("content"@) == Some(content)
            &&& content.i64_at("size"@) == Some(e.response_body_size)
            &&& content.str_at("mimeType"@) == Some(media_type(e.mime_type@))
            &&& o.str_at("redirectURL"@) == Some(e.redirect_url@)
            &&& o.i64_at("headersSize"@) == Some(-1i64)
            &&& o.i64_at("bodySize"@) == Some(e.response_body_size)
        }),
{
    lemma_response_keys();
    let f = response_object(e)->Object_0;
    lemma_field_found(f, "status"@, 0);
    lemma_field_found(f, "statusText"@, 1);
    lemma_field_found(f, "httpVersion"@, 2);
    lemma_field_found(f, "cookies"@, 3);
    lemma_field_found(f, "headers"@, 4);
    lemma_field_found(f, "content"@, 5);
    lemma_field_found(f, "redirectURL"@, 6);
    lemma_field_found(f, "headersSize"@, 7);
    lemma_field_found(f, "bodySize"@, 8);
    let c = f[5].1->Object_0;
    lemma_field_found(c, "size"@, 0);
    lemma_field_found(c, "mimeType"@, 1);
}

/// The entry of a request tells of its response: the status, 0 where there is none; how
/// large its body is, twice; its media type, or that it is arbitrary bytes; its headers,
/// in order, the cookies that they set, and where it leads.
pub proof fn law_entry_tells_of_the_response(
    e: HarEntry,
    nanos: i128,
    values: Option<TimingValues>,
    total: Real,
    rec: Recorded,
    r: Json,
    cookies: Vec<(String, String)>,
)
    requires
        call_ensures(Recorded::new, (e, nanos, values, total), rec),
        call_ensures(har_entry_to_json, (&rec,), r),
        call_ensures(response_cookies, (&e.response_headers,), cookies),
    ensures
        r.view().get("response"@) is Some,
        ({
            let o = r.view().get("response"@)->Some_0;
            let content = o.get("content"@)->Some_0;
            &&& e.status matches Some(s) ==> o.i64_at("status"@) == Some(s)
            &&& e.status is None ==> o.i64_at("status"@) == Some(0i64)
            &&& o.str_at("statusText"@) == Some(e.status_text@)
            &&& o.str_at("httpVersion"@) == Some(e.http_version@)
            &&& o.str_at("redirectURL"@) == Some(e.redirect_url@)
            &&& o.i64_at("bodySize"@) == Some(e.response_body_size)
            &&& o.i64_at("headersSize"@) == Some(-1i64)
            &&& o.get("content"@) is Some
            &&& content.i64_at("size"@) == Some(e.response_body_size)
            &&& content.i64_at("size"@) == o.i64_at("bodySize"@)
            &&& e.mime_type@.len() > 0 ==> content.str_at("mimeType"@) == Some(e.mime_type@)
            &&& e.mime_type@.len() == 0 ==> content.str_at("mimeType"@) == Some(
                "application/octet-stream"@,
            )
            &&& o.get("headers"@) is Some && lists_headers(
                o.get("headers"@)->Some_0,
                e.response_headers@,
            )
            &&& o.get("cookies"@) is Some && lists_headers(o.get("cookies"@)->Some_0, cookies@)
        }),
{
    lemma_entry(rec);
    lemma_response(e);
    lemma_lists_headers(e.response_headers@);
    lemma_lists_headers(cookies@);
}

proof fn lemma_request_keys()
    ensures
        "method"@ != "url"@,
        "method"@ != "httpVersion"@,
        "method"@ != "cookies"@,
        "method"@ != "headers"@,
        "method"@ != "queryString"@,
        "method"@ != "headersSize"@,
        "method"@ != "bodySize"@,
        "method"@ != "postData"@,
        "url"@ != "httpVersion"@,
        "url"@ != "cookies"@,
        "url"@ != "headers"@,
        "url"@ != "queryString"@,
        "url"@ != "headersSize"@,
        "url"@ != "bodySize"@,
        "url"@ != "postData"@,
        "httpVersion"@ != "queryString"@,
        "httpVersion"@ != "postData"@,
        "cookies"@ != "queryString"@,
        "cookies"@ != "postData"@,
        "headers"@ != "queryString"@,
        "headers"@ != "postData"@,
        "queryString"@ != "headersSize"@,
        "queryString"@ != "bodySize"@,
        "queryString"@ != "postData"@,
        "headersSize"@ != "postData"@,
        "bodySize"@ != "postData"@,
        "mimeType"@ != "text"@,
{
    reveal_strlit("method");
    reveal_strlit("url");
    reveal_strlit("httpVersion");
    reveal_strlit("cookies");
    reveal_strlit("headers");
    reveal_strlit("queryString");
    reveal_strlit("headersSize");
    reveal_strlit("bodySize");
    reveal_strlit("postData");
    reveal_strlit("mimeType");
    reveal_strlit("text");
    assert("method"@.len() == 6 && "url"@.len() == 3 && "httpVersion"@.len() == 11
        && "cookies"@.len() == 7 && "headers"@.len() == 7 && "queryString"@.len() == 11
        && "headersSize"@.len() == 11 && "bodySize"@.len() == 8 && "postData"@.len() == 8
        && "mimeType"@.len() == 8 && "text"@.len() == 4);
    assert("httpVersion"@[0] != "queryString"@[0] && "queryString"@[0] != "headersSize"@[0]
        && "bodySize"@[0] != "postData"@[0]);
}

/// The header with the given name that comes first, whatever its case.
pub open spec fn first_header(headers: Seq<(String, String)>, name: Seq<char>, k: int) -> bool {
    &&& 0 <= k < headers.len()
    &&& equal_ignoring_case(headers[k].0@, name)
    &&& forall|j: int| 0 <= j < k ==> !equal_ignoring_case((#[trigger] headers[j]).0@, name)
}

proof fn lemma_first_header(headers: Seq<(Seq<char>, Seq<char>)>, name: Seq<char>, k: int)
    requires
        0 <= k <= headers.len(),
        k < headers.len() ==> equal_ignoring_case(headers[k].0, name),
        forall|j: int| 0 <= j < k ==> !equal_ignoring_case((#[trigger] headers[j]).0, name),
    ensures
        header_value(headers, name) == if k < headers.len() {
            Some(headers[k].1)
        } else {
            None
        },
    decreases k,
{
    if k > 0 {
        assert(!equal_ignoring_case(headers[0].0, name));
        let rest = headers.skip(1);
        assert forall|j: int| 0 <= j < k - 1 implies !equal_ignoring_case(
            (#[trigger] rest[j]).0,
            name,
        ) by {
            assert(rest[j] == headers[j + 1]);
        }
        lemma_first_header(rest, name, k - 1);
    }
}

proof fn lemma_header_found(headers: Seq<(String, String)>, name: Seq<char>, k: int)
    requires
        first_header(headers, name, k),
    ensures
        header_value(pairs(headers), name) == Some(headers[k].1@),
{
    let h = pairs(headers);
    assert(h[k] == (headers[k].0@, headers[k].1@));
    assert forall|j: int| 0 <= j < k implies !equal_ignoring_case((#[trigger] h[j]).0, name) by {
        assert(h[j].0 == headers[j].0@);
    }
    lemma_first_header(h, name, k);
}

/// No header has the given name.
pub open spec fn no_header(headers: Seq<(String, String)>, name: Seq<char>) -> bool {
    forall|j: int| 0 <= j < headers.len() ==> !equal_ignoring_case((#[trigger] headers[j]).0@, name)
}

proof fn lemma_header_missing(headers: Seq<(String, String)>, name: Seq<char>)
    requires
        no_header(headers, name),
    ensures
        header_value(pairs(headers), name) is None,
{
    let h = pairs(headers);
    assert forall|j: int| 0 <= j < h.len() implies !equal_ignoring_case(
        (#[trigger] h[j]).0,
        name,
    ) by {
        assert(h[j].0 == headers[j].0@);
    }
    lemma_first_header(h, name, h.len() as int);
}

proof fn lemma_request(e: HarEntry)
    ensures
        ({
            let o = request_object(e);
            &&& o.str_at("method"@) == Some(e.method@)
            &&& o.str_at("url"@) == Some(e.url@)
            &&& o.str_at("httpVersion"@) == Some(e.http_version@)
            &&& o.get("cookies"@) == Some(headers_json(cookies_sent(pairs(e.request_headers@))))
            &&& o.get("headers"@) == Some(headers_json(pairs(e.request_headers@)))
            &&& o.get("queryString"@) == Some(
                headers_json(crate::har::query_list(crate::outside::url_of(e.url@))),
            )
            &&& o.i64_at("headersSize"@) == Some(-1i64)
            &&& o.i64_at("bodySize"@) == Some(e.request_body_size)
            &&& o.get("postData"@) is Some <==> e.post_data is Some
            &&& e.post_data matches Some(b) ==> {
                let p = o.get("postData"@)->Some_0;
                &&& p.str_at("text"@) == Some(b@)
                &&& p.str_at("mimeType"@) == Some(
                    match header_value(pairs(e.request_headers@), "content-type"@) {
                        Some(t) => t,
                        None => "text/plain"@,
                    },
                )
            }
        }),
{
    lemma_request_keys();
    lemma_response_keys();
    let f = request_object(e)->Object_0;
    lemma_field_found(f, "method"@, 0);
    lemma_field_found(f, "url"@, 1);
    lemma_field_found(f, "httpVersion"@, 2);
    lemma_field_found(f, "cookies"@, 3);
    lemma_field_found(f, "headers"@, 4);
    lemma_field_found(f, "queryString"@, 5);
    lemma_field_found(f, "headersSize"@, 6);
    lemma_field_found(f, "bodySize"@, 7);
    lemma_field_found(f, "postData"@, 8);
    if e.post_data is Some {
        let p = f[8].1->Object_0;
        lemma_field_found(p, "mimeType"@, 0);
        lemma_field_found(p, "text"@, 1);
    }
}

/// The entry of a request tells of the request: its method, URL, headers in order, query,
/// the cookies of its first `Cookie` header, and how large its body is; the body itself
/// where it has one, with the media type of its first `Content-Type` header, plain text
/// where it has none.
pub proof fn law_entry_tells_of_the_request(
    e: HarEntry,
    nanos: i128,
    values: Option<TimingValues>,
    total: Real,
    rec: Recorded,
    r: Json,
    url: &str,
    query: Json,
    cookie: &str,
    cookies: Json,
    k: int,
)
    requires
        call_ensures(Recorded::new, (e, nanos, values, total), rec),
        call_ensures(har_entry_to_json, (&rec,), r),
        url@ == e.url@,
        call_ensures(har_parse_query_string, (url,), query),
        call_ensures(har_parse_request_cookies, (cookie,), cookies),
    ensures
        r.view().get("request"@) is Some,
        ({
            let o = r.view().get("request"@)->Some_0;
            let h = e.request_headers@;
            &&& o.str_at("method"@) == Some(e.method@)
            &&& o.str_at("url"@) == Some(e.url@)
            &&& o.str_at("httpVersion"@) == Some(e.http_version@)
            &&& o.i64_at("bodySize"@) == Some(e.request_body_size)
            &&& o.i64_at("headersSize"@) == Some(-1i64)
            &&& o.get("headers"@) is Some && lists_headers(o.get("headers"@)->Some_0, h)
            &&& o.get("queryString"@) == Some(query.view())
            &&& first_header(h, "cookie"@, k) && h[k].1@ == cookie@ ==> o.get("cookies"@) == Some(
                cookies.view(),
            )
            &&& no_header(h, "cookie"@) ==> o.get("cookies"@) == Some(
                JsonV::Array(Seq::<JsonV>::empty()),
            )
            &&& e.post_data is None ==> o.get("postData"@) is None
            &&& e.post_data matches Some(b) ==> {
                let p = o.get("postData"@)->Some_0;
                &&& o.get("postData"@) is Some
                &&& p.str_at("text"@) == Some(b@)
                &&& first_header(h, "content-type"@, k) ==> p.str_at("mimeType"@) == Some(h[k].1@)
                &&& no_header(h, "content-type"@) ==> p.str_at("mimeType"@) == Some("text/plain"@)
            }
        }),
{
    let h = e.request_headers@;
    lemma_entry(rec);
    lemma_request(e);
    lemma_lists_headers(h);
    if first_header(h, "cookie"@, k) {
        lemma_header_found(h, "cookie"@, k);
    }
    if no_header(h, "cookie"@) {
        lemma_header_missing(h, "cookie"@);
        assert(headers_json(Seq::<(Seq<char>, Seq<char>)>::empty())->Array_0 == Seq::<
            JsonV,
        >::empty());
    }
    if first_header(h, "content-type"@, k) {
        lemma_header_found(h, "content-type"@, k);
    }
    if no_header(h, "content-type"@) {
        lemma_header_missing(h, "content-type"@);
    }
}

/// The entry of a request tells when it started, where its wall time is more than zero
/// and can be written; how long its phases were, as far as its timing data tells of them,
/// and the total of these, zero where it tells of none; and what kind of resource it was.
pub proof fn law_entry_tells_of_the_timing(
    e: HarEntry,
    nanos: i128,
    values: Option<TimingValues>,
    total: Real,
    rec: Recorded,
    r: Json,
    counted: Option<TimingValues>,
    timings: Json,
)
    requires
        call_ensures(Recorded::new, (e, nanos, values, total), rec),
        call_ensures(har_entry_to_json, (&rec,), r),
        call_ensures(timing_values, (&e, values), counted),
        call_ensures(timings_json, (counted,), timings),
    ensures
        0 < e.wall_time.bits <= 0x7ff0_0000_0000_0000 && rfc3339_writes(nanos as int)
            ==> r.view().str_at("startedDateTime"@) == Some(rfc3339_text(nanos as int)),
        r.view().str_at("startedDateTime"@) is Some,
        r.view().get("timings"@) == Some(timings.view()),
        counted is Some ==> r.view().number_at("time"@) == Some(Num::Float(total)),
        counted is None ==> r.view().number_at("time"@) == Some(Num::Float(Real { bits: 0 })),
        r.view().str_at("_resourceType"@) == Some(e.resource_type@),
{
    lemma_entry(rec);
}

/// A phase counts where both of its moments are given and not negative, with the length
/// that was measured; waiting counts where the end of sending is given, and receiving
/// where the start of the request, the end of the headers and the end of loading are.
/// Without timing data or lengths nothing counts.
pub proof fn law_phases_count_where_they_occurred(
    e: &HarEntry,
    values: Option<TimingValues>,
    r: Option<TimingValues>,
)
    requires
        call_ensures(timing_values, (e, values), r),
    ensures
        r is Some <==> e.cdp_timing is Some && values is Some,
        r matches Some(v) ==> {
            let t = e.cdp_timing->Some_0.view();
            let m = values->Some_0;
            &&& v.send == m.send
            &&& v.blocked == (if after_start(t, "dnsStart"@) || after_start(t, "connectStart"@)
                || after_start(t, "sendStart"@) {
                m.blocked
            } else {
                None
            })
            &&& v.dns == (if moment(t, "dnsStart"@) && moment(t, "dnsEnd"@) {
                m.dns
            } else {
                None
            })
            &&& v.connect == (if moment(t, "connectStart"@) && moment(t, "connectEnd"@) {
                m.connect
            } else {
                None
            })
            &&& v.ssl == (if moment(t, "sslStart"@) && moment(t, "sslEnd"@) {
                m.ssl
            } else {
                None
            })
            &&& moment(t, "sendEnd"@) ==> v.wait == m.wait
            &&& !moment(t, "sendEnd"@) ==> v.wait.bits == 0
            &&& v.receive == (if moment(t, "requestTime"@) && moment(t, "receiveHeadersEnd"@)
                && e.loading_finished_timestamp is Some {
                m.receive
            } else {
                Real { bits: 0 }
            })
        },
{
}

/// The timing data has a number under the key, and it is not negative.
pub open spec fn moment(t: JsonV, key: Seq<char>) -> bool {
    t.number_at(key) matches Some(n) && n.not_negative()
}

/// The timing data has a number under the key, and it is more than zero.
pub open spec fn after_start(t: JsonV, key: Seq<char>) -> bool {
    t.number_at(key) matches Some(n) && n.positive()
}

/// The number under a key of the timing data.
pub open spec fn at(t: JsonV, key: Seq<char>) -> Num {
    t.number_at(key)->Some_0
}

/// The phases lie between the moments that the timing data names for them. A request is
/// blocked until the first of name lookup, connecting and sending that has a moment after
/// zero; it waits from the end of sending to the start of the headers, or to their end
/// where their start is not known.
pub proof fn law_phases_lie_between_their_moments(
    timing: Option<&Json>,
    finished: Option<Real>,
    r: Option<TimingPlan>,
)
    requires
        call_ensures(har_compute_timings, (timing, finished), r),
    ensures
        r is Some <==> timing is Some,
        r matches Some(p) ==> {
            let t = timing->Some_0.view();
            let dns = t.number_at("dnsStart"@);
            let connect = t.number_at("connectStart"@);
            let send = t.number_at("sendStart"@);
            let after = |n: Option<Num>| n is Some && n->Some_0.positive();
            &&& p.dns is Some <==> moment(t, "dnsStart"@) && moment(t, "dnsEnd"@)
            &&& p.dns matches Some(s) ==> s.from == at(t, "dnsStart"@) && s.to == at(t, "dnsEnd"@)
            &&& p.connect is Some <==> moment(t, "connectStart"@) && moment(t, "connectEnd"@)
            &&& p.connect matches Some(s) ==> s.from == at(t, "connectStart"@) && s.to == at(
                t,
                "connectEnd"@,
            )
            &&& p.ssl is Some <==> moment(t, "sslStart"@) && moment(t, "sslEnd"@)
            &&& p.ssl matches Some(s) ==> s.from == at(t, "sslStart"@) && s.to == at(t, "sslEnd"@)
            &&& send is Some && t.number_at("sendEnd"@) is Some ==> p.send.from == at(
                t,
                "sendStart"@,
            ) && p.send.to == at(t, "sendEnd"@)
            &&& p.wait is Some <==> moment(t, "sendEnd"@)
            &&& p.wait matches Some(s) ==> s.from == at(t, "sendEnd"@) && (moment(
                t,
                "receiveHeadersStart"@,
            ) ==> s.to == at(t, "receiveHeadersStart"@)) && (!moment(t, "receiveHeadersStart"@)
                && t.number_at("receiveHeadersEnd"@) is Some ==> s.to == at(
                t,
                "receiveHeadersEnd"@,
            ))
            &&& p.receive is Some <==> finished is Some && moment(t, "requestTime"@) && moment(
                t,
                "receiveHeadersEnd"@,
            )
            &&& p.receive matches Some(x) ==> x.request_time == at(t, "requestTime"@)
                && x.headers_end == at(t, "receiveHeadersEnd"@) && x.finished
                == finished->Some_0
            &&& after(dns) ==> p.blocked == dns
            &&& !after(dns) && after(connect) ==> p.blocked == connect
            &&& !after(dns) && !after(connect) && after(send) ==> p.blocked == send
            &&& !after(dns) && !after(connect) && !after(send) ==> p.blocked is None
        },
{
}

/// A length that is shown: what was measured where it is at least zero.
pub open spec fn shown(x: Real) -> bool {
    x.bits <= 0x7ff0_0000_0000_0000 || x.bits == 0x8000_0000_0000_0000
}

/// The lengths are shown as they were measured, but none that is negative: sending,
/// waiting and receiving are then zero, and the others left out, as is a length of zero
/// for being blocked. The total is made up of the same lengths but for the handshake.
pub proof fn law_lengths_are_shown_as_measured(
    v: TimingValues,
    r: Json,
    terms: Vec<Real>,
)
    requires
        call_ensures(timings_json, (Some(v),), r),
        call_ensures(total_terms, (v,), terms),
    ensures
        r.view().number_at("send"@) == Some(
            Num::Float(
                if shown(v.send) {
                    v.send
                } else {
                    Real { bits: 0 }
                },
            ),
        ),
        r.view().number_at("wait"@) == Some(
            Num::Float(
                if shown(v.wait) {
                    v.wait
                } else {
                    Real { bits: 0 }
                },
            ),
        ),
        r.view().number_at("receive"@) == Some(
            Num::Float(
                if shown(v.receive) {
                    v.receive
                } else {
                    Real { bits: 0 }
                },
            ),
        ),
        v.dns matches Some(x) ==> r.view().number_at("dns"@) == (if shown(x) {
            Some(Num::Float(x))
        } else {
            None
        }),
        v.connect matches Some(x) ==> r.view().number_at("connect"@) == (if shown(x) {
            Some(Num::Float(x))
        } else {
            None
        }),
        v.ssl matches Some(x) ==> r.view().number_at("ssl"@) == (if shown(x) {
            Some(Num::Float(x))
        } else {
            None
        }),
        v.blocked matches Some(x) ==> r.view().number_at("blocked"@) == (if 0 < x.bits
            <= 0x7ff0_0000_0000_0000 {
            Some(Num::Float(x))
        } else {
            None
        }),
        v.dns is None ==> r.view().get("dns"@) is None,
        v.connect is None ==> r.view().get("connect"@) is None,
        v.ssl is None ==> r.view().get("ssl"@) is None,
        v.blocked is None ==> r.view().get("blocked"@) is None,
        terms@.len() == 6,
        terms@[0] == term(r.view(), "blocked"@),
        terms@[1] == term(r.view(), "dns"@),
        terms@[2] == term(r.view(), "connect"@),
        terms@[3] == term(r.view(), "send"@),
        terms@[4] == term(r.view(), "wait"@),
        terms@[5] == term(r.view(), "receive"@),
{
    crate::har::lemma_timing_fields(v);
}

/// The length that is shown under a key, zero where none is.
pub open spec fn term(timings: JsonV, key: Seq<char>) -> Real {
    match timings.number_at(key) {
        Some(Num::Float(x)) => x,
        _ => Real { bits: 0 },
    }
}

/// Without lengths the required ones are zero.
pub proof fn law_required_lengths_are_zero(r: Json)
    requires
        call_ensures(timings_json, (None,), r),
    ensures
        r.view().u64_at("send"@) == Some(0u64),
        r.view().u64_at("wait"@) == Some(0u64),
        r.view().u64_at("receive"@) == Some(0u64),
        r.view()->Object_0.len() == 3,
{
    reveal_strlit("send");
    reveal_strlit("wait");
    reveal_strlit("receive");
    assert("send"@.len() == 4 && "wait"@.len() == 4 && "receive"@.len() == 7);
    assert("send"@[0] != "wait"@[0]);
    let f = r.view()->Object_0;
    lemma_field_found(f, "send"@, 0);
    lemma_field_found(f, "wait"@, 1);
    lemma_field_found(f, "receive"@, 2);
}

/// The headers of an object are listed in its order, each with its name and its string,
/// empty where the value is none; what is no object has no headers.
pub proof fn law_headers_are_listed(headers: Option<&Json>, r: Vec<(String, String)>, i: int)
    requires
        call_ensures(har_extract_headers, (headers,), r),
    ensures
        headers is None ==> r@.len() == 0,
        headers matches Some(h) ==> {
            &&& !(h.view() is Object) ==> r@.len() == 0
            &&& h.view() matches JsonV::Object(fields) ==> {
                &&& r@.len() == fields.len()
                &&& 0 <= i < fields.len() ==> {
                    &&& r@[i].0@ == fields[i].0
                    &&& fields[i].1 matches JsonV::Str(s) ==> r@[i].1@ == s
                    &&& !(fields[i].1 is Str) ==> r@[i].1@.len() == 0
                }
            }
        },
{
    assert(pairs(r@).len() == r@.len());
    if 0 <= i < r@.len() {
        assert(pairs(r@)[i] == (r@[i].0@, r@[i].1@));
    }
}

/// The cookies that a `Cookie` header carries are read back from it.
pub proof fn law_cookie_header_is_read_back(
    cookies: Seq<(Seq<char>, Seq<char>)>,
    header: &str,
    r: Vec<(String, String)>,
    list: Json,
)
    requires
        forall|i: int| 0 <= i < cookies.len() ==> writable(#[trigger] cookies[i]),
        header@ == cookie_header(cookies),
        call_ensures(request_cookies, (header,), r),
        call_ensures(har_parse_request_cookies, (header,), list),
    ensures
        pairs(r@) == cookies,
        lists_headers(list.view(), r@),
{
    law_cookies_read_back(cookies);
    lemma_lists_headers(r@);
}

/// Each part of a `Cookie` header behind a `;` is one more cookie, unless it is blank: its
/// name stands before the first `=` and its value behind it, without the white space
/// around them; without a `=` all of it is the name.
pub proof fn law_each_part_is_a_cookie(
    header: &str,
    longer: &str,
    part: Seq<char>,
    name: Seq<char>,
    value: Seq<char>,
    r: Vec<(String, String)>,
    s: Vec<(String, String)>,
)
    requires
        call_ensures(request_cookies, (header,), r),
        call_ensures(request_cookies, (longer,), s),
        !part.contains(';'),
        longer@ == header@.push(';') + part,
    ensures
        trimmed(part).len() == 0 ==> pairs(s@) == pairs(r@),
        trimmed(part).len() > 0 ==> s@.len() == r@.len() + 1 && pairs(s@).drop_last() == pairs(
            r@,
        ),
        trimmed(part) == name.push('=') + value && !name.contains('=') ==> pairs(s@).last() == (
            trimmed(name),
            trimmed(value),
        ),
        trimmed(part).len() > 0 && !trimmed(part).contains('=') ==> pairs(s@).last() == (
            trimmed(part),
            Seq::<char>::empty(),
        ),
{
    let seps = seq![';'];
    assert(seps[0] == ';');
    assert forall|i: int| 0 <= i < part.len() implies !seps.contains(#[trigger] part[i]) by {
        if part[i] == ';' {
            assert(part.contains(';'));
        }
    }
    lemma_last_piece(header@, ';', part, seps);
    let ps = pieces(header@, seps);
    assert(ps.push(part).drop_last() == ps);
    assert(pairs(s@).len() == s@.len() && pairs(r@).len() == r@.len());
    let t = trimmed(part);
    if t.len() > 0 {
        assert(pairs(s@) == pairs(r@).push(cookie_pair(t)));
        assert(pairs(s@).drop_last() == pairs(r@));
    }
    if t == name.push('=') + value && !name.contains('=') {
        assert(t[name.len() as int] == '=');
        assert forall|j: int| 0 <= j < name.len() implies t[j] != '=' by {
            assert(t[j] == name[j]);
        }
        lemma_first_index(t, '=', name.len() as int);
        assert(t.take(name.len() as int) == name);
        assert(t.skip(name.len() as int + 1) == value);
    }
    if t.len() > 0 && !t.contains('=') {
        lemma_none_index(t, '=');
        lemma_trimmed_ends(part);
        lemma_trimmed_keeps(t);
        assert(trimmed(Seq::<char>::empty()) == Seq::<char>::empty());
    }
}

/// A header that is one part alone gives that cookie alone.
pub proof fn law_one_part_is_one_cookie(
    header: &str,
    longer: &str,
    r: Vec<(String, String)>,
    s: Vec<(String, String)>,
)
    requires
        call_ensures(request_cookies, (header,), r),
        call_ensures(request_cookies, (longer,), s),
        !header@.contains(';'),
        longer@ == seq![';'] + header@,
    ensures
        pairs(r@) == pairs(s@),
        r@.len() == (if trimmed(header@).len() > 0 {
            1int
        } else {
            0
        }),
{
    let seps = seq![';'];
    let h = header@;
    assert(seps[0] == ';');
    assert forall|i: int| 0 <= i < h.len() implies !seps.contains(#[trigger] h[i]) by {
        if h[i] == ';' {
            assert(h.contains(';'));
        }
    }
    let none = Seq::<char>::empty();
    lemma_one_piece(h, seps);
    lemma_one_piece(none, seps);
    lemma_last_piece(none, ';', h, seps);
    assert(longer@ == none.push(';') + h);
    assert(seq![none].push(h).drop_last() == seq![none]);
    assert(seq![none].drop_last() == Seq::<Seq<char>>::empty());
    assert(seq![h].drop_last() == Seq::<Seq<char>>::empty());
    reveal_with_fuel(cookies_in, 3);
    assert(trimmed(none) == none);
    assert(pairs(r@).len() == r@.len());
}

/// The text for when a request started is that of its own moment where that can be
/// written, and in any case that of some moment, the start of 1970 in the end.
pub proof fn law_start_is_a_moment(nanos: Option<i128>, r: String)
    requires
        call_ensures(har_wall_time_to_rfc3339, (nanos,), r),
    ensures
        nanos matches Some(n) ==> (rfc3339_writes(n as int) ==> r@ == rfc3339_text(n as int)),
        r@ == "1970-01-01T00:00:00Z"@ || exists|n: int|
            rfc3339_writes(n) && r@ == #[trigger] rfc3339_text(n),
{
}

/// How many of the headers set a cookie.
pub open spec fn setting(headers: Seq<(String, String)>) -> nat
    decreases headers.len(),
{
    if headers.len() == 0 {
        0
    } else {
        setting(headers.drop_last()) + (if equal_ignoring_case(
            headers.last().0@,
            "set-cookie"@,
        ) {
            1nat
        } else {
            0nat
        })
    }
}

proof fn lemma_set_cookies(headers: Seq<(String, String)>)
    ensures
        set_cookies(pairs(headers)).len() == setting(headers),
    decreases headers.len(),
{
    if headers.len() > 0 {
        lemma_set_cookies(headers.drop_last());
        assert(pairs(headers).drop_last() == pairs(headers.drop_last()));
        assert(pairs(headers).last() == (headers.last().0@, headers.last().1@));
    }
}

proof fn lemma_set_cookie(c: (Seq<char>, Seq<char>), attributes: Option<Seq<char>>)
    requires
        writable(c),
    ensures
        crate::har::set_cookie(
            match attributes {
                Some(a) => cookie_text(c).push(';') + a,
                None => cookie_text(c),
            },
        ) == c,
{
    let t = cookie_text(c);
    crate::har::lemma_cookie_text(c);
    let s = match attributes {
        Some(a) => t.push(';') + a,
        None => t,
    };
    assert forall|j: int| 0 <= j < t.len() implies s[j] != ';' by {
        assert(s[j] == t[j]);
    }
    if attributes is Some {
        assert(s[t.len() as int] == ';');
        lemma_first_index(s, ';', t.len() as int);
    } else {
        lemma_none_index(s, ';');
    }
    assert(s.take(t.len() as int) == t);
}

proof fn lemma_none_index(s: Seq<char>, c: char)
    requires
        forall|j: int| 0 <= j < s.len() ==> s[j] != c,
    ensures
        first_index(s, c) == s.len(),
    decreases s.len(),
{
    if s.len() > 0 {
        assert(s[0] != c);
        assert forall|j: int| 0 <= j < s.skip(1).len() implies s.skip(1)[j] != c by {
            assert(s[j + 1] != c);
        }
        lemma_none_index(s.skip(1), c);
    }
}

/// Each header that sets a cookie gives one, without its attributes, and no other header
/// does.
pub proof fn law_set_cookies_are_read(
    headers: &Vec<(String, String)>,
    r: Vec<(String, String)>,
    k: int,
    c: (Seq<char>, Seq<char>),
    attributes: Option<Seq<char>>,
)
    requires
        call_ensures(response_cookies, (headers,), r),
        writable(c),
    ensures
        r@.len() == setting(headers@),
        0 <= k < headers@.len() && equal_ignoring_case(headers@[k].0@, "set-cookie"@)
            && headers@[k].1@ == (match attributes {
            Some(a) => cookie_text(c).push(';') + a,
            None => cookie_text(c),
        }) ==> pairs(r@).contains(c),
{
    lemma_set_cookies(headers@);
    assert(pairs(r@).len() == r@.len());
    if 0 <= k < headers@.len() && equal_ignoring_case(headers@[k].0@, "set-cookie"@)
        && headers@[k].1@ == (match attributes {
        Some(a) => cookie_text(c).push(';') + a,
        None => cookie_text(c),
    }) {
        lemma_set_cookie(c, attributes);
        lemma_cookie_set(headers@, k, c);
    }
}

proof fn lemma_cookie_set(headers: Seq<(String, String)>, k: int, c: (Seq<char>, Seq<char>))
    requires
        0 <= k < headers.len(),
        equal_ignoring_case(headers[k].0@, "set-cookie"@),
        crate::har::set_cookie(headers[k].1@) == c,
    ensures
        set_cookies(pairs(headers)).contains(c),
    decreases headers.len(),
{
    let h = pairs(headers);
    let before = set_cookies(h.drop_last());
    let all = set_cookies(h);
    assert(h.drop_last() == pairs(headers.drop_last()));
    assert(h.last() == (headers.last().0@, headers.last().1@));
    if k == headers.len() - 1 {
        assert(all[before.len() as int] == c);
    } else {
        lemma_cookie_set(headers.drop_last(), k, c);
        let j = choose|j: int| 0 <= j < before.len() && before[j] == c;
        assert(all[j] == c);
    }
}

/// The names that the browser has for protocols stand for versions of HTTP, in any case
/// of letters; a name that is not known stands for 1.1.
pub proof fn law_protocols_stand_for_versions(protocol: &str, r: String)
    requires
        call_ensures(har_cdp_protocol_to_http_version, (protocol,), r),
    ensures
        equal_ignoring_case(protocol@, "h2"@) ==> r@ == "HTTP/2.0"@,
        equal_ignoring_case(protocol@, "h3"@) ==> r@ == "HTTP/3.0"@,
        equal_ignoring_case(protocol@, "http/1.0"@) ==> r@ == "HTTP/1.0"@,
        !equal_ignoring_case(protocol@, "h2"@) && !equal_ignoring_case(protocol@, "h3"@)
            && !equal_ignoring_case(protocol@, "http/1.0"@) ==> r@ == "HTTP/1.1"@,
{
    reveal_strlit("h2");
    reveal_strlit("h3");
    reveal_strlit("http/1.0");
    assert(ascii_lowered("h2"@) == "h2"@);
    assert(ascii_lowered("h3"@) == "h3"@);
    assert(ascii_lowered("http/1.0"@) == "http/1.0"@);
    assert("h2"@[1] != "h3"@[1]);
    assert("h2"@.len() == 2 && "h3"@.len() == 2 && "http/1.0"@.len() == 8);
}

/// An export goes to the path that was given, or else to a file that is named after the
/// time.
pub proof fn law_export_goes_to_the_given_path(
    path: Option<&str>,
    millis: u128,
    r: HarTarget,
    has_home: bool,
    dir: Vec<String>,
)
    requires
        call_ensures(har_output_path, (path, millis), r),
        call_ensures(get_har_dir, (has_home,), dir),
    ensures
        path matches Some(p) ==> (r matches HarTarget::Path(q) && q@ == p@),
        path is None ==> (r matches HarTarget::InDirectory(n) && n@ == "har-"@ + decimal(
            millis as nat,
        ) + ".har"@),
        dir@.len() > 0,
        dir@[dir@.len() - 1]@ == "har"@,
        dir@[0]@ == (if has_home {
            ".agent-browser"@
        } else {
            "agent-browser"@
        }),
{
    let t = texts(dir@);
    assert(t.len() == dir@.len());
    assert(t[0] == dir@[0]@);
    assert(t[dir@.len() - 1] == dir@[dir@.len() - 1]@);
}

/// A browser is named by what stands before the first `/` of its product text, and its
/// version is what stands behind; there is none without a product text.
pub proof fn law_browser_is_named_by_its_product(
    version: &Json,
    r: Option<Json>,
    name: Seq<char>,
    number: Seq<char>,
)
    requires
        call_ensures(browser_metadata_from_version, (version,), r),
        !name.contains('/'),
    ensures
        r is Some <==> version.view().str_at("product"@) is Some,
        version.view().str_at("product"@) == Some(name.push('/') + number) ==> (r matches Some(j)
            && j.view().str_at("name"@) == Some(name) && j.view().str_at("version"@) == Some(
            number,
        )),
        version.view().str_at("product"@) == Some(name) ==> (r matches Some(j) && j.view().str_at(
            "name"@,
        ) == Some(name) && j.view().str_at("version"@) == Some(Seq::<char>::empty())),
{
    reveal_strlit("name");
    reveal_strlit("version");
    assert("name"@.len() == 4 && "version"@.len() == 7);
    if let Some(j) = r {
        let f = j.view()->Object_0;
        lemma_field_found(f, "name"@, 0);
        lemma_field_found(f, "version"@, 1);
    }
    let s = name.push('/') + number;
    assert forall|j: int| 0 <= j < name.len() implies s[j] != '/' by {
        assert(s[j] == name[j]);
    }
    assert(s[name.len() as int] == '/');
    lemma_first_index(s, '/', name.len() as int);
    assert(s.take(name.len() as int) == name);
    assert(s.skip(name.len() as int + 1) == number);
    assert forall|j: int| 0 <= j < name.len() implies name[j] != '/' by {}
    lemma_none_index(name, '/');
}

/// The document of an export is of version 1.2 and names the program, its version, the
/// browser where it is known, and holds the entries.
pub proof fn law_document_holds_the_entries(
    entries: Vec<Json>,
    version: &str,
    browser: Option<Json>,
    r: Json,
)
    requires
        call_ensures(har_log, (entries, version, browser), r),
    ensures
        r.view().get("log"@) is Some,
        ({
            let log = r.view().get("log"@)->Some_0;
            &&& log.str_at("version"@) == Some("1.2"@)
            &&& log.get("creator"@) is Some
            &&& log.get("creator"@)->Some_0.str_at("name"@) == Some("agent-browser"@)
            &&& log.get("creator"@)->Some_0.str_at("version"@) == Some(version@)
            &&& log.get("entries"@) == Some(JsonV::Array(items_view(entries@)))
            &&& log.get("browser"@) == seen_value(browser)
        }),
{
    lemma_document_keys();
    lemma_field_found(r.view()->Object_0, "log"@, 0);
    let f = r.view().get("log"@)->Some_0->Object_0;
    lemma_field_found(f, "version"@, 0);
    lemma_field_found(f, "creator"@, 1);
    lemma_field_found(f, "entries"@, 2);
    lemma_field_found(f, "browser"@, 3);
    let c = f[1].1->Object_0;
    lemma_field_found(c, "name"@, 0);
    lemma_field_found(c, "version"@, 1);
}

proof fn lemma_document_keys()
    ensures
        "version"@ != "creator"@,
        "version"@ != "entries"@,
        "version"@ != "browser"@,
        "creator"@ != "entries"@,
        "creator"@ != "browser"@,
        "entries"@ != "browser"@,
        "name"@ != "version"@,
        "path"@ != "requestCount"@,
{
    reveal_strlit("version");
    reveal_strlit("creator");
    reveal_strlit("entries");
    reveal_strlit("browser");
    reveal_strlit("name");
    reveal_strlit("path");
    reveal_strlit("requestCount");
    assert("version"@[0] == 'v' && "creator"@[0] == 'c' && "entries"@[0] == 'e' && "browser"@[0]
        == 'b');
    assert("name"@.len() == 4 && "version"@.len() == 7);
    assert("path"@.len() == 4 && "requestCount"@.len() == 12);
}

/// An export holds the entry of every request that was recorded, in order, and is answered
/// with its path and how many there are.
pub proof fn law_export_holds_every_entry(
    recorded: &Vec<Recorded>,
    path: &str,
    version: &str,
    browser: Option<Json>,
    r: HarStop,
    i: int,
    entry: Json,
)
    requires
        call_ensures(handle_har_stop, (recorded, path, version, browser), r),
        0 <= i < recorded@.len(),
        call_ensures(har_entry_to_json, (&recorded@[i],), entry),
    ensures
        r.document.view().get("log"@) is Some,
        r.document.view().get("log"@)->Some_0.get("entries"@) matches Some(JsonV::Array(items))
            && items.len() == recorded@.len() && items[i] == entry.view(),
        r.document.view().get("log"@)->Some_0.get("browser"@) == seen_value(browser),
        r.reply.view().str_at("path"@) == Some(path@),
        r.reply.view().u64_at("requestCount"@) == Some(recorded@.len() as u64),
{
    lemma_document_keys();
    lemma_field_found(r.document.view()->Object_0, "log"@, 0);
    let f = r.document.view().get("log"@)->Some_0->Object_0;
    lemma_field_found(f, "entries"@, 2);
    lemma_field_found(f, "browser"@, 3);
    let g = r.reply.view()->Object_0;
    lemma_field_found(g, "path"@, 0);
    lemma_field_found(g, "requestCount"@, 1);
}

/// A capture starts empty, and hands out what it has captured once, in order.
pub proof fn law_capture_starts_empty_and_hands_out_once(
    a: &mut HarRecorder,
    b: &mut HarRecorder,
    r: Vec<HarEntry>,
)
    requires
        call_ensures(HarRecorder::begin, (a,), ()),
        call_ensures(HarRecorder::finish, (b,), r),
    ensures
        final(a).recording && final(a).entries@.len() == 0,
        r@ == old(b).entries@,
        !final(b).recording && final(b).entries@.len() == 0,
{
}

/// A capture turns on the network events of the active session, and of each frame that
/// has a session of its own, and needs an active session.
pub proof fn law_capture_covers_the_frames(
    browser: &Browser,
    frames: &Vec<String>,
    r: Result<HarStart, String>,
    i: int,
)
    requires
        call_ensures(handle_har_start, (browser, frames), r),
    ensures
        r is Ok <==> browser is Session,
        r matches Err(e) ==> e@ == refusal(*browser),
        r matches Ok(s) ==> {
            &&& s.command.method@ == "Network.enable"@
            &&& opt_string(s.command.session) == Some(browser->Session_0@)
            &&& s.frame_commands@.len() == frames@.len()
            &&& 0 <= i < frames@.len() ==> s.frame_commands@[i].method@ == "Network.enable"@
                && opt_string(s.frame_commands@[i].session) == Some(frames@[i]@)
            &&& s.reply.view().bool_at("started"@) == Some(true)
        },
{
    if let Ok(s) = r {
        let c = commands_view(s.frame_commands@);
        assert(c.len() == s.frame_commands@.len());
        assert(c == network_commands(texts(frames@)));
        assert(texts(frames@).len() == frames@.len());
        if 0 <= i < frames@.len() {
            assert(c[i] == s.frame_commands@[i].view());
            assert(texts(frames@)[i] == frames@[i]@);
        }
        lemma_field_found(s.reply.view()->Object_0, "started"@, 0);
    }
}

/// A video recording starts where the command names a path, none is running and there is
/// an active session; it is that session which is recorded, to that path. Where none is
/// running there is nothing to stop.
pub proof fn law_one_video_is_recorded_at_a_time(
    cmd: &Json,
    active: bool,
    browser: &Browser,
    r: Result<VideoStart, String>,
    stop: Option<Json>,
)
    requires
        call_ensures(handle_video_start, (cmd, active, browser), r),
        call_ensures(handle_video_stop, (active,), stop),
    ensures
        r is Ok <==> cmd.view().str_at("path"@) is Some && !active && browser is Session,
        r matches Ok(v) ==> Some(v.path@) == cmd.view().str_at("path"@) && v.session@
            == browser->Session_0@ && v.reply.view().bool_at("started"@) == Some(true)
            && v.reply.view().str_at("note"@) == Some(
            "Video recording started. Use video_stop to save the recording."@,
        ),
        r matches Err(e) ==> e@ == (if cmd.view().str_at("path"@) is None {
            "Missing '"@ + "path"@ + "' parameter"@
        } else if active {
            "A recording is already in progress"@
        } else {
            refusal(*browser)
        }),
        stop is Some <==> !active,
        stop matches Some(j) ==> j.view().bool_at("stopped"@) == Some(false)
            && j.view().str_at("note"@) == Some(
            "No video recording was started. Use recording_stop if you used recording_start."@,
        ),
{
    reveal_strlit("started");
    reveal_strlit("stopped");
    reveal_strlit("note");
    assert("started"@.len() == 7 && "stopped"@.len() == 7 && "note"@.len() == 4);
    if let Ok(v) = r {
        lemma_field_found(v.reply.view()->Object_0, "started"@, 0);
        lemma_field_found(v.reply.view()->Object_0, "note"@, 1);
    }
    if let Some(j) = stop {
        lemma_field_found(j.view()->Object_0, "stopped"@, 0);
        lemma_field_found(j.view()->Object_0, "note"@, 1);
    }
}

/// The query of a URL is listed in order, and is empty where the URL cannot be read.
pub proof fn law_query_is_listed(url: &Option<UrlParts>, r: Json)
    requires
        call_ensures(query_objects, (url,), r),
    ensures
        *url is None ==> r.view() == JsonV::Array(Seq::<JsonV>::empty()),
        *url matches Some(u) ==> lists_headers(r.view(), u.query@),
{
    match *url {
        Some(u) => {
            lemma_lists_headers(u.query@);
        },
        None => {
            assert(headers_json(Seq::<(Seq<char>, Seq<char>)>::empty())->Array_0 == Seq::<
                JsonV,
            >::empty());
        },
    }
}

/// The query of a URL is that of the URL as it is read.
pub proof fn law_query_is_that_of_the_url(
    text: &str,
    url: &Option<UrlParts>,
    r: Json,
    s: Json,
)
    requires
        opt_url(*url) == url_of(text@),
        call_ensures(har_parse_query_string, (text,), r),
        call_ensures(query_objects, (url,), s),
    ensures
        r.view() == s.view(),
{
}

} // verus!
