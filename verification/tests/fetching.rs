use agent_browser::cdp::CdpCommand;
use agent_browser::fetch::{
    decide_fetch, filter_host, resolve_fetch_paused, FetchDecision, FetchPausedRequest,
    OriginHeaders,
};
use agent_browser::json::{Json, Num, Real};
use agent_browser::outside::UrlParts;
use agent_browser::routes::{route_from_command, RouteEntry};

fn convert(v: &serde_json::Value) -> Json {
    match v {
        serde_json::Value::Null => Json::Null,
        serde_json::Value::Bool(b) => Json::Bool(*b),
        serde_json::Value::Number(n) => Json::Number(if let Some(u) = n.as_u64() {
            Num::Unsigned(u)
        } else if let Some(i) = n.as_i64() {
            Num::Negative(i)
        } else {
            Num::Float(Real { bits: n.as_f64().unwrap().to_bits() })
        }),
        serde_json::Value::String(s) => Json::Str(s.clone()),
        serde_json::Value::Array(a) => Json::Array(a.iter().map(convert).collect()),
        serde_json::Value::Object(m) => {
            Json::Object(m.iter().map(|(k, v)| (k.clone(), convert(v))).collect())
        }
    }
}

fn parse(text: &str) -> Json {
    convert(&serde_json::from_str(text).unwrap())
}

fn show(j: &Json) -> String {
    match j {
        Json::Null => "null".to_string(),
        Json::Bool(b) => b.to_string(),
        Json::Number(Num::Unsigned(n)) => n.to_string(),
        Json::Number(Num::Negative(n)) => n.to_string(),
        Json::Number(Num::Float(x)) => format!("{:?}", f64::from_bits(x.bits)),
        Json::Str(s) => format!("{:?}", s),
        Json::Array(a) => format!("[{}]", a.iter().map(show).collect::<Vec<_>>().join(",")),
        Json::Object(o) => format!(
            "{{{}}}",
            o.iter().map(|(k, v)| format!("{:?}:{}", k, show(v))).collect::<Vec<_>>().join(",")
        ),
    }
}

fn sent(c: &CdpCommand) -> String {
    format!(
        "{} {} {}",
        c.method,
        c.params.as_ref().map(show).unwrap_or_else(|| "-".to_string()),
        c.session.as_deref().unwrap_or("-")
    )
}

fn paused(url: &str, kind: &str) -> FetchPausedRequest {
    FetchPausedRequest {
        request_id: "r1".to_string(),
        url: url.to_string(),
        resource_type: kind.to_string(),
        session_id: "s".to_string(),
        request_headers: Some(vec![
            ("Accept".to_string(), Json::text("x")),
            ("x-a".to_string(), Json::text("old")),
            ("N".to_string(), Json::integer(1)),
        ]),
    }
}

fn route(text: &str) -> RouteEntry {
    route_from_command(&parse(text)).unwrap()
}

fn resolved(
    filter: Option<bool>,
    routes: &Vec<RouteEntry>,
    origins: &Vec<OriginHeaders>,
    p: &FetchPausedRequest,
) -> String {
    sent(&resolve_fetch_paused(filter, routes, origins, p).unwrap())
}

#[test]
fn an_unrouted_request_goes_on() {
    let p = paused("https://x.org/a", "XHR");
    let none = "Fetch.continueRequest {\"requestId\":\"r1\"} s";
    assert_eq!(resolved(None, &vec![], &vec![], &p), none);
    assert_eq!(resolved(Some(true), &vec![], &vec![], &p), none);
    assert_eq!(resolved(None, &vec![route("{\"url\":\"zzz\",\"abort\":true}")], &vec![], &p), none);
}

#[test]
fn a_blocked_host_is_not_reached() {
    let p = paused("https://x.org/a", "XHR");
    let routes = vec![route("{\"url\":\"*\",\"body\":\"b\"}")];
    assert_eq!(
        resolved(Some(false), &routes, &vec![], &p),
        "Fetch.failRequest {\"requestId\":\"r1\",\"errorReason\":\"BlockedByClient\"} s"
    );
    let d = paused("https://x.org/a", "document");
    assert_eq!(
        resolved(Some(false), &routes, &vec![], &d),
        "Fetch.fulfillRequest {\"requestId\":\"r1\",\"responseCode\":403,\"responseHeaders\":[{\"name\":\"Content-Type\",\"value\":\"text/html\"}],\"body\":\"PGh0bWw+PGJvZHk+PGgxPkJsb2NrZWQ8L2gxPjxwPk5hdmlnYXRpb24gdG8geC5vcmcgaXMgbm90IGFsbG93ZWQgYnkgZG9tYWluIGZpbHRlci48L3A+PC9ib2R5PjwvaHRtbD4=\"} s"
    );
}

#[test]
fn other_schemes_fail_as_documents_only() {
    let d = paused("data:text/html,x", "Document");
    let x = paused("data:text/html,x", "Image");
    for allowed in [true, false] {
        assert_eq!(
            resolved(Some(allowed), &vec![], &vec![], &d),
            "Fetch.failRequest {\"requestId\":\"r1\",\"errorReason\":\"BlockedByClient\"} s"
        );
        assert_eq!(
            resolved(Some(allowed), &vec![], &vec![], &x),
            "Fetch.continueRequest {\"requestId\":\"r1\"} s"
        );
    }
}

#[test]
fn the_first_acting_route_wins() {
    let p = paused("https://x.org/api", "XHR");
    let routes = vec![
        route("{\"url\":\"/api\"}"),
        route("{\"url\":\"/api\",\"abort\":true,\"resourceType\":\"image\"}"),
        route("{\"url\":\"/api\",\"resourceType\":\"xhr\",\"response\":{\"status\":201,\"body\":\"hi\",\"contentType\":\"t/p\",\"headers\":{\"H\":\"v\"}}}"),
        route("{\"url\":\"/api\",\"abort\":true}"),
    ];
    assert_eq!(
        resolved(None, &routes, &vec![], &p),
        "Fetch.fulfillRequest {\"requestId\":\"r1\",\"responseCode\":201,\"responseHeaders\":[{\"name\":\"Content-Type\",\"value\":\"t/p\"},{\"name\":\"H\",\"value\":\"v\"}],\"body\":\"aGk=\"} s"
    );
    let i = paused("https://x.org/api", "Image");
    assert_eq!(
        resolved(None, &routes, &vec![], &i),
        "Fetch.failRequest {\"requestId\":\"r1\",\"errorReason\":\"Failed\"} s"
    );
}

#[test]
fn an_answer_has_defaults() {
    let p = paused("https://x.org/api", "XHR");
    let routes = vec![route("{\"url\":\"/api\",\"response\":{}}")];
    assert_eq!(
        resolved(None, &routes, &vec![], &p),
        "Fetch.fulfillRequest {\"requestId\":\"r1\",\"responseCode\":200,\"responseHeaders\":[],\"body\":\"\"} s"
    );
}

#[test]
fn extra_headers_replace_those_of_the_request() {
    let p = paused("https://x.org:443/a", "XHR");
    let origins = vec![
        OriginHeaders { origin: "https://y.org".to_string(), headers: vec![] },
        OriginHeaders {
            origin: "https://x.org".to_string(),
            headers: vec![("X-A".to_string(), "new".to_string())],
        },
    ];
    assert_eq!(
        resolved(None, &vec![], &origins, &p),
        "Fetch.continueRequest {\"requestId\":\"r1\",\"headers\":[{\"name\":\"Accept\",\"value\":\"x\"},{\"name\":\"X-A\",\"value\":\"new\"}]} s"
    );
    let mut bare = paused("https://x.org/a", "XHR");
    bare.request_headers = None;
    assert_eq!(
        resolved(None, &vec![], &origins, &bare),
        "Fetch.continueRequest {\"requestId\":\"r1\",\"headers\":[{\"name\":\"X-A\",\"value\":\"new\"}]} s"
    );
}

#[test]
fn a_url_that_cannot_be_read_passes_the_filter() {
    let p = paused("not a url", "Document");
    assert_eq!(
        resolved(Some(false), &vec![], &vec![], &p),
        "Fetch.continueRequest {\"requestId\":\"r1\"} s"
    );
}

#[test]
fn the_filter_is_asked_about_web_hosts() {
    assert_eq!(filter_host("https://User@EX.com:8443/p").as_deref(), Some("ex.com"));
    assert_eq!(filter_host("ftp://ex.com/"), None);
    assert_eq!(filter_host("ex.com"), None);
}

#[test]
fn decides_on_given_parts() {
    let url = Some(UrlParts {
        scheme: "https".to_string(),
        host: None,
        origin: "null".to_string(),
        query: vec![],
    });
    let p = paused("https://x.org/a", "XHR");
    assert_eq!(
        decide_fetch(&url, Some(false), &vec![], &vec![], &p),
        FetchDecision::Continue
    );
}
