use agent_browser::cdp::{Browser, CdpCommand};
use agent_browser::json::{Json, Num, Real};
use agent_browser::requests::{
    cleared_reply, find_request, handle_http_credentials, handle_request_detail, handle_requests,
    matches_lowered_filter, matches_status_filter, requests_reply, response_body_command, response_body_text,
    select_requests, RequestsAction, TrackedRequest,
};

fn convert(v: &serde_json::Value) -> Json {
    match v {
        serde_json::Value::Null => Json::Null,
        serde_json::Value::Bool(b) => Json::Bool(*b),
        serde_json::Value::Number(n) => Json::Number(if let Some(u) = n.as_u64() {
            Num::Unsigned(u)
        } else if let Some(i) = n.as_i64() {
            Num::Negative(i)
        } else {
            Num::Float(Real { bits: n.as_f64().unwrap().to_bits() })
        }),
        serde_json::Value::String(s) => Json::Str(s.clone()),
        serde_json::Value::Array(a) => Json::Array(a.iter().map(convert).collect()),
        serde_json::Value::Object(m) => {
            Json::Object(m.iter().map(|(k, v)| (k.clone(), convert(v))).collect())
        }
    }
}

fn parse(text: &str) -> Json {
    convert(&serde_json::from_str(text).unwrap())
}

fn show(j: &Json) -> String {
    match j {
        Json::Null => "null".to_string(),
        Json::Bool(b) => b.to_string(),
        Json::Number(Num::Unsigned(n)) => n.to_string(),
        Json::Number(Num::Negative(n)) => n.to_string(),
        Json::Number(Num::Float(x)) => format!("{:?}", f64::from_bits(x.bits)),
        Json::Str(s) => format!("{:?}", s),
        Json::Array(a) => format!("[{}]", a.iter().map(show).collect::<Vec<_>>().join(",")),
        Json::Object(o) => format!(
            "{{{}}}",
            o.iter().map(|(k, v)| format!("{:?}:{}", k, show(v))).collect::<Vec<_>>().join(",")
        ),
    }
}

fn sent(c: &CdpCommand) -> String {
    format!(
        "{} {} {}",
        c.method,
        c.params.as_ref().map(show).unwrap_or_else(|| "-".to_string()),
        c.session.as_deref().unwrap_or("-")
    )
}

fn request(id: &str, url: &str, method: &str, kind: &str, status: Option<i64>) -> TrackedRequest {
    TrackedRequest {
        request_id: id.to_string(),
        url: url.to_string(),
        method: method.to_string(),
        resource_type: kind.to_string(),
        status,
    }
}

fn some() -> Vec<TrackedRequest> {
    vec![
        request("1", "https://x.org/a", "GET", "Document", Some(200)),
        request("2", "https://x.org/api", "POST", "XHR", Some(404)),
        request("3", "https://y.org/api", "get", "Fetch", None),
        request("2", "https://z.org/", "PUT", "Image", Some(503)),
    ]
}

#[test]
fn filters_by_status() {
    assert!(matches_status_filter(Some(404), "404"));
    assert!(matches_status_filter(Some(404), "4xx"));
    assert!(matches_status_filter(Some(404), "4XX"));
    assert!(matches_status_filter(Some(404), "400-499"));
    assert!(matches_status_filter(Some(400), "400-400"));
    assert!(!matches_status_filter(Some(404), "5xx"));
    assert!(!matches_status_filter(Some(404), "405-499"));
    assert!(!matches_status_filter(Some(404), "abc"));
    assert!(!matches_status_filter(Some(404), "xxx"));
    assert!(!matches_status_filter(Some(404), ""));
    assert!(!matches_status_filter(Some(404), "400-"));
    assert!(!matches_status_filter(None, "404"));
    assert!(matches_status_filter(Some(-50), "0xx"));
    assert!(matches_status_filter(Some(-5), "-5"));
    assert!(!matches_status_filter(Some(-5), "-9--1"));
    assert!(matches_status_filter(Some(5), "+5"));
}

#[test]
fn ranges_hold_both_ends() {
    for (code, inside) in [(199, false), (200, true), (204, true), (299, true), (300, false)] {
        assert_eq!(matches_status_filter(Some(code), "200-299"), inside);
        assert_eq!(matches_status_filter(Some(code), "2xx"), inside);
    }
    assert!(matches_status_filter(Some(5), "1-9"));
}

#[test]
fn lowered_filters_are_taken_as_they_are() {
    assert!(matches_lowered_filter(Some(404), "4xx"));
    assert!(!matches_lowered_filter(Some(404), "4XX"));
}

#[test]
fn selects_exactly_what_is_asked_for() {
    let all = some();
    let pick = |t: &str| select_requests(&all, &parse(t));
    assert_eq!(pick("{}"), vec![0, 1, 2, 3]);
    assert_eq!(pick("{\"filter\":\"/api\"}"), vec![1, 2]);
    assert_eq!(pick("{\"type\":\" XHR, fetch \"}"), vec![1, 2]);
    assert_eq!(pick("{\"method\":\"GET\"}"), vec![0, 2]);
    assert_eq!(pick("{\"status\":\"400-599\"}"), vec![1, 3]);
    assert_eq!(pick("{\"status\":\"4xx\",\"filter\":\"y.org\"}"), Vec::<usize>::new());
    assert_eq!(pick("{\"type\":\"\"}"), Vec::<usize>::new());
}

#[test]
fn clearing_goes_first() {
    let b = Browser::Session("s".to_string());
    assert_eq!(
        handle_requests(&parse("{\"clear\":true}"), false, &b, &some()),
        RequestsAction::Clear
    );
    match handle_requests(&parse("{\"clear\":false}"), false, &b, &some()) {
        RequestsAction::Show { start_tracking, enable, selected } => {
            assert!(start_tracking);
            assert_eq!(sent(&enable.unwrap()), "Network.enable - s");
            assert_eq!(selected.len(), 4);
        }
        RequestsAction::Clear => panic!("cleared"),
    }
    match handle_requests(&parse("{}"), true, &b, &some()) {
        RequestsAction::Show { start_tracking, enable, .. } => {
            assert!(!start_tracking);
            assert_eq!(enable, None);
        }
        RequestsAction::Clear => panic!("cleared"),
    }
    match handle_requests(&parse("{}"), false, &Browser::NotLaunched, &some()) {
        RequestsAction::Show { start_tracking, enable, .. } => {
            assert!(start_tracking);
            assert_eq!(enable, None);
        }
        RequestsAction::Clear => panic!("cleared"),
    }
}

#[test]
fn answers_about_requests() {
    assert_eq!(show(&cleared_reply()), "{\"cleared\":true}");
    assert_eq!(show(&requests_reply(vec![Json::text("a")])), "{\"requests\":[\"a\"]}");
}

#[test]
fn finds_the_first_request_with_an_id() {
    assert_eq!(find_request(&parse("{\"requestId\":\"2\"}"), &some()), Ok(1));
    assert_eq!(
        find_request(&parse("{\"requestId\":\"9\"}"), &some()).unwrap_err(),
        "Request not found"
    );
    assert_eq!(find_request(&parse("{}"), &some()).unwrap_err(), "Missing 'requestId' parameter");
}

#[test]
fn shows_response_bodies() {
    assert_eq!(response_body_text(&parse("{\"body\":\"hi\"}")), "hi");
    assert_eq!(
        response_body_text(&parse("{\"body\":\"aGk=\",\"base64Encoded\":true}")),
        "[base64, 4 chars]"
    );
    assert_eq!(response_body_text(&parse("{\"base64Encoded\":true}")), "[base64, 0 chars]");
    assert_eq!(
        sent(&response_body_command("r", "s")),
        "Network.getResponseBody {\"requestId\":\"r\"} s"
    );
}

#[test]
fn adds_the_body_to_the_details() {
    let entry = || vec![("url".to_string(), Json::text("u"))];
    assert_eq!(show(&handle_request_detail(entry(), None)), "{\"url\":\"u\"}");
    assert_eq!(
        show(&handle_request_detail(entry(), Some(&parse("{\"body\":\"b\"}")))),
        "{\"url\":\"u\",\"responseBody\":\"b\"}"
    );
    let old = vec![
        ("responseBody".to_string(), Json::Null),
        ("url".to_string(), Json::text("u")),
    ];
    assert_eq!(
        show(&handle_request_detail(old, Some(&parse("{\"body\":\"b\"}")))),
        "{\"responseBody\":\"b\",\"url\":\"u\"}"
    );
}

#[test]
fn sets_basic_credentials() {
    let b = Browser::Session("s".to_string());
    let x = handle_http_credentials(
        &parse("{\"username\":\"Aladdin\",\"password\":\"open sesame\"}"),
        &b,
    )
    .unwrap();
    assert_eq!(
        x.headers,
        vec![("Authorization".to_string(), "Basic QWxhZGRpbjpvcGVuIHNlc2FtZQ==".to_string())]
    );
    assert_eq!(x.session, "s");
    assert_eq!(show(&x.reply), "{\"set\":true}");
    assert_eq!(
        handle_http_credentials(&parse("{}"), &Browser::NotLaunched).unwrap_err(),
        "Browser not launched"
    );
    assert_eq!(
        handle_http_credentials(&parse("{}"), &b).unwrap_err(),
        "Missing 'username' parameter"
    );
    assert_eq!(
        handle_http_credentials(&parse("{\"username\":\"u\"}"), &b).unwrap_err(),
        "Missing 'password' parameter"
    );
}
