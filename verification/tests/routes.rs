use agent_browser::cdp::{Browser, CdpCommand};
use agent_browser::json::{Json, Num, Real};
use agent_browser::routes::{
    build_fetch_patterns, handle_route, handle_unroute, parse_route_response, route_from_command,
    Interception, RouteEntry,
};

fn convert(v: &serde_json::Value) -> Json {
    match v {
        serde_json::Value::Null => Json::Null,
        serde_json::Value::Bool(b) => Json::Bool(*b),
        serde_json::Value::Number(n) => Json::Number(if let Some(u) = n.as_u64() {
            Num::Unsigned(u)
        } else if let Some(i) = n.as_i64() {
            Num::Negative(i)
        } else {
            Num::Float(Real { bits: n.as_f64().unwrap().to_bits() })
        }),
        serde_json::Value::String(s) => Json::Str(s.clone()),
        serde_json::Value::Array(a) => Json::Array(a.iter().map(convert).collect()),
        serde_json::Value::Object(m) => {
            Json::Object(m.iter().map(|(k, v)| (k.clone(), convert(v))).collect())
        }
    }
}

fn parse(text: &str) -> Json {
    convert(&serde_json::from_str(text).unwrap())
}

fn show(j: &Json) -> String {
    match j {
        Json::Null => "null".to_string(),
        Json::Bool(b) => b.to_string(),
        Json::Number(Num::Unsigned(n)) => n.to_string(),
        Json::Number(Num::Negative(n)) => n.to_string(),
        Json::Number(Num::Float(x)) => format!("{:?}", f64::from_bits(x.bits)),
        Json::Str(s) => format!("{:?}", s),
        Json::Array(a) => format!("[{}]", a.iter().map(show).collect::<Vec<_>>().join(",")),
        Json::Object(o) => format!(
            "{{{}}}",
            o.iter().map(|(k, v)| format!("{:?}:{}", k, show(v))).collect::<Vec<_>>().join(",")
        ),
    }
}

fn sent(c: &CdpCommand) -> String {
    format!(
        "{} {} {}",
        c.method,
        c.params.as_ref().map(show).unwrap_or_else(|| "-".to_string()),
        c.session.as_deref().unwrap_or("-")
    )
}

const NONE: Interception =
    Interception { domain_filter: false, origin_headers: false, proxy_credentials: false };

fn open() -> Browser {
    Browser::Session("s".to_string())
}

fn patterns(routes: &Vec<RouteEntry>) -> Vec<String> {
    routes.iter().map(|r| r.url_pattern.clone()).collect()
}

#[test]
fn reads_the_answer_of_a_route() {
    let r = parse_route_response(&parse(
        "{\"response\":{\"status\":65737,\"body\":\"b\",\"contentType\":\"t\",\"headers\":{\"A\":\"1\",\"B\":2}}}",
    ))
    .unwrap();
    assert_eq!(r.status, Some(201));
    assert_eq!(r.body.as_deref(), Some("b"));
    assert_eq!(r.content_type.as_deref(), Some("t"));
    assert_eq!(r.headers, Some(vec![("A".to_string(), "1".to_string())]));
}

#[test]
fn a_null_answer_leaves_the_bare_body() {
    let r = parse_route_response(&parse("{\"response\":null,\"body\":\"x\"}")).unwrap();
    assert_eq!(r.body.as_deref(), Some("x"));
    assert_eq!(r.status, None);
    assert_eq!(parse_route_response(&parse("{\"response\":null}")), None);
    let r = parse_route_response(&parse("{\"response\":5,\"body\":\"x\"}")).unwrap();
    assert_eq!(r.body, None);
}

#[test]
fn reads_resource_types() {
    let types = |t: &str| route_from_command(&parse(t)).unwrap().resource_types;
    assert_eq!(types("{\"url\":\"u\",\"resourceType\":\" XHR , ,fetch\"}"), vec!["XHR", "fetch"]);
    assert_eq!(types("{\"url\":\"u\",\"resourceTypes\":[\"a\",\"\",3,\" b\"]}"), vec!["a", " b"]);
    assert!(types("{\"url\":\"u\",\"resourceType\":7,\"resourceTypes\":[\"a\"]}").is_empty());
    assert!(types("{\"url\":\"u\"}").is_empty());
}

#[test]
fn a_route_needs_a_url() {
    assert_eq!(route_from_command(&parse("{}")).unwrap_err(), "Missing 'url' parameter");
    let mut routes = Vec::new();
    assert_eq!(
        handle_route(&parse("{}"), &open(), &mut routes, NONE).unwrap_err(),
        "Missing 'url' parameter"
    );
    assert_eq!(
        handle_route(&parse("{}"), &Browser::NotLaunched, &mut routes, NONE).unwrap_err(),
        "Browser not launched"
    );
    assert!(routes.is_empty());
}

#[test]
fn routing_turns_interception_on() {
    let mut routes = Vec::new();
    let e = handle_route(&parse("{\"url\":\"**/a\",\"abort\":true}"), &open(), &mut routes, NONE)
        .unwrap();
    assert_eq!(sent(&e.command), "Fetch.enable {\"patterns\":[{\"urlPattern\":\"*/a\"}]} s");
    assert_eq!(show(&e.reply), "{\"routed\":\"**/a\"}");
    assert!(routes[0].abort);
}

#[test]
fn other_users_have_all_requests_intercepted() {
    let creds = Interception { proxy_credentials: true, ..NONE };
    let mut routes = Vec::new();
    let e = handle_route(&parse("{\"url\":\"a\"}"), &open(), &mut routes, creds).unwrap();
    assert_eq!(
        sent(&e.command),
        "Fetch.enable {\"patterns\":[{\"urlPattern\":\"a\"},{\"urlPattern\":\"*\"}],\"handleAuthRequests\":true} s"
    );
    let filter = Interception { domain_filter: true, ..NONE };
    let origin = Interception { origin_headers: true, ..NONE };
    assert_eq!(build_fetch_patterns(&routes, filter), vec!["a", "*"]);
    assert_eq!(build_fetch_patterns(&routes, origin), vec!["a", "*"]);
    assert_eq!(build_fetch_patterns(&routes, NONE), vec!["a"]);
    handle_route(&parse("{\"url\":\"***\"}"), &open(), &mut routes, creds).unwrap();
    assert_eq!(build_fetch_patterns(&routes, filter), vec!["a", "*"]);
}

#[test]
fn unrouting_undoes_routing() {
    let mut routes = Vec::new();
    for url in ["a", "b", "a"] {
        let cmd = format!("{{\"url\":\"{}\"}}", url);
        handle_route(&parse(&cmd), &open(), &mut routes, NONE).unwrap();
    }
    let e = handle_unroute(&parse("{\"url\":\"a\"}"), &open(), &mut routes, NONE).unwrap();
    assert_eq!(patterns(&routes), vec!["b"]);
    assert_eq!(sent(&e.command), "Fetch.enable {\"patterns\":[{\"urlPattern\":\"b\"}]} s");
    assert_eq!(show(&e.reply), "{\"unrouted\":\"a\"}");
    let e = handle_unroute(&parse("{}"), &open(), &mut routes, NONE).unwrap();
    assert!(routes.is_empty());
    assert_eq!(sent(&e.command), "Fetch.disable - s");
    assert_eq!(show(&e.reply), "{\"unrouted\":\"all\"}");
}

#[test]
fn interception_stays_on_while_it_is_used() {
    let mut routes = Vec::new();
    let filter = Interception { domain_filter: true, ..NONE };
    let e = handle_unroute(&parse("{}"), &open(), &mut routes, filter).unwrap();
    assert_eq!(sent(&e.command), "Fetch.enable {\"patterns\":[{\"urlPattern\":\"*\"}]} s");
    assert_eq!(
        handle_unroute(&parse("{}"), &Browser::NotLaunched, &mut routes, filter).unwrap_err(),
        "Browser not launched"
    );
}
