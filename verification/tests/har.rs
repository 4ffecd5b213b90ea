use agent_browser::cdp::{Browser, CdpCommand};
use agent_browser::har::{
    browser_metadata_from_version, get_har_dir, handle_har_start, handle_har_stop,
    handle_video_start, handle_video_stop, har_cdp_protocol_to_http_version, har_compute_timings, har_entry_to_json,
    har_extract_headers, har_log, har_output_path, har_parse_query_string,
    har_parse_request_cookies, har_stop_reply, har_wall_time_to_rfc3339, query_objects,
    response_cookies, started_date_time, timing_values, timings_json, total_terms, HarEntry,
    HarRecorder, HarTarget, Reception, Recorded, Span, TimingValues,
};
use agent_browser::json::{Json, Num, Real};
use agent_browser::outside::UrlParts;

fn convert(v: &serde_json::Value) -> Json {
    match v {
        serde_json::Value::Null => Json::Null,
        serde_json::Value::Bool(b) => Json::Bool(*b),
        serde_json::Value::Number(n) => Json::Number(if let Some(u) = n.as_u64() {
            Num::Unsigned(u)
        } else if let Some(i) = n.as_i64() {
            Num::Negative(i)
        } else {
            Num::Float(Real { bits: n.as_f64().unwrap().to_bits() })
        }),
        serde_json::Value::String(s) => Json::Str(s.clone()),
        serde_json::Value::Array(a) => Json::Array(a.iter().map(convert).collect()),
        serde_json::Value::Object(m) => {
            Json::Object(m.iter().map(|(k, v)| (k.clone(), convert(v))).collect())
        }
    }
}

fn parse(text: &str) -> Json {
    convert(&serde_json::from_str(text).unwrap())
}

fn show(j: &Json) -> String {
    match j {
        Json::Null => "null".to_string(),
        Json::Bool(b) => b.to_string(),
        Json::Number(Num::Unsigned(n)) => n.to_string(),
        Json::Number(Num::Negative(n)) => n.to_string(),
        Json::Number(Num::Float(x)) => format!("{:?}", f64::from_bits(x.bits)),
        Json::Str(s) => format!("{:?}", s),
        Json::Array(a) => format!("[{}]", a.iter().map(show).collect::<Vec<_>>().join(",")),
        Json::Object(o) => format!(
            "{{{}}}",
            o.iter().map(|(k, v)| format!("{:?}:{}", k, show(v))).collect::<Vec<_>>().join(",")
        ),
    }
}

fn sent(c: &CdpCommand) -> String {
    format!(
        "{} {} {}",
        c.method,
        c.params.as_ref().map(show).unwrap_or_else(|| "-".to_string()),
        c.session.as_deref().unwrap_or("-")
    )
}

fn float(x: f64) -> Real {
    Real { bits: x.to_bits() }
}

fn entry() -> HarEntry {
    HarEntry {
        wall_time: float(1.0),
        method: "POST".to_string(),
        url: "https://x.org/p?a=1&b=%20c".to_string(),
        http_version: "HTTP/2.0".to_string(),
        request_headers: vec![
            ("Cookie".to_string(), "k=v; ; e".to_string()),
            ("content-TYPE".to_string(), "text/csv".to_string()),
        ],
        request_body_size: 3,
        post_data: Some("abc".to_string()),
        status: Some(201),
        status_text: "Created".to_string(),
        response_headers: vec![
            ("Set-Cookie".to_string(), "sid = 1=2 ; Path=/".to_string()),
            ("X".to_string(), "y".to_string()),
        ],
        response_body_size: -1,
        mime_type: String::new(),
        redirect_url: String::new(),
        resource_type: "xhr".to_string(),
        cdp_timing: None,
        loading_finished_timestamp: None,
    }
}

const NEW_YEAR: i128 = 1_704_067_200_000_000_000;

fn written(e: HarEntry, values: Option<TimingValues>, total: f64) -> String {
    show(&har_entry_to_json(&Recorded::new(e, NEW_YEAR, values, float(total))))
}

#[test]
fn names_http_versions() {
    assert_eq!(har_cdp_protocol_to_http_version("h2"), "HTTP/2.0");
    assert_eq!(har_cdp_protocol_to_http_version("H3"), "HTTP/3.0");
    assert_eq!(har_cdp_protocol_to_http_version("HTTP/1.0"), "HTTP/1.0");
    assert_eq!(har_cdp_protocol_to_http_version("http/1.1"), "HTTP/1.1");
    assert_eq!(har_cdp_protocol_to_http_version(""), "HTTP/1.1");
}

#[test]
fn lists_headers_in_order() {
    assert_eq!(
        har_extract_headers(Some(&parse("{\"A\":\"1\",\"B\":2}"))),
        vec![("A".to_string(), "1".to_string()), ("B".to_string(), String::new())]
    );
    assert!(har_extract_headers(Some(&parse("[]"))).is_empty());
    assert!(har_extract_headers(None).is_empty());
}

#[test]
fn reads_query_strings() {
    assert_eq!(
        show(&har_parse_query_string("https://x.org/?a=1&b=x+y&c")),
        "[{\"name\":\"a\",\"value\":\"1\"},{\"name\":\"b\",\"value\":\"x y\"},{\"name\":\"c\",\"value\":\"\"}]"
    );
    assert_eq!(show(&har_parse_query_string("nonsense?a=1")), "[]");
    let url = Some(UrlParts {
        scheme: "https".to_string(),
        host: None,
        origin: String::new(),
        query: vec![("q".to_string(), "r".to_string())],
    });
    assert_eq!(show(&query_objects(&url)), "[{\"name\":\"q\",\"value\":\"r\"}]");
    assert_eq!(show(&query_objects(&None)), "[]");
}

#[test]
fn cookies_read_back() {
    assert_eq!(
        show(&har_parse_request_cookies("name1=val1; name2=val2; empty=; odd = a=b ")),
        "[{\"name\":\"name1\",\"value\":\"val1\"},{\"name\":\"name2\",\"value\":\"val2\"},{\"name\":\"empty\",\"value\":\"\"},{\"name\":\"odd\",\"value\":\"a=b\"}]"
    );
    assert_eq!(show(&har_parse_request_cookies(" ; ;flag")), "[{\"name\":\"flag\",\"value\":\"\"}]");
    assert_eq!(show(&har_parse_request_cookies("")), "[]");
}

#[test]
fn set_cookies_lose_their_attributes() {
    let headers = vec![
        ("SET-COOKIE".to_string(), "a=1; HttpOnly".to_string()),
        ("Other".to_string(), "b=2".to_string()),
        ("set-cookie".to_string(), "flag".to_string()),
    ];
    assert_eq!(
        response_cookies(&headers),
        vec![("a".to_string(), "1".to_string()), ("flag".to_string(), String::new())]
    );
}

#[test]
fn plans_the_timing_of_a_request() {
    let t = parse("{\"requestTime\":10.5,\"dnsStart\":0,\"dnsEnd\":4,\"connectStart\":4,\"connectEnd\":9,\"sslStart\":-1,\"sslEnd\":-1,\"sendStart\":9,\"sendEnd\":10,\"receiveHeadersStart\":-1,\"receiveHeadersEnd\":30}");
    let p = har_compute_timings(Some(&t), Some(float(11.0))).unwrap();
    assert_eq!(p.blocked, Some(Num::Unsigned(4)));
    assert_eq!(p.dns, Some(Span { from: Num::Unsigned(0), to: Num::Unsigned(4) }));
    assert_eq!(p.connect, Some(Span { from: Num::Unsigned(4), to: Num::Unsigned(9) }));
    assert_eq!(p.ssl, None);
    assert_eq!(p.send, Span { from: Num::Unsigned(9), to: Num::Unsigned(10) });
    assert_eq!(p.wait, Some(Span { from: Num::Unsigned(10), to: Num::Unsigned(30) }));
    assert_eq!(
        p.receive,
        Some(Reception {
            request_time: Num::Float(float(10.5)),
            headers_end: Num::Unsigned(30),
            finished: float(11.0)
        })
    );
}

#[test]
fn absent_phases_have_no_span() {
    let p = har_compute_timings(Some(&parse("{}")), Some(float(1.0))).unwrap();
    assert_eq!((p.blocked, p.dns, p.connect, p.ssl, p.wait, p.receive), (None, None, None, None, None, None));
    assert_eq!(p.send, Span { from: Num::Negative(-1), to: Num::Negative(-1) });
    assert_eq!(har_compute_timings(None, None), None);
    let t = parse("{\"requestTime\":1,\"sendEnd\":2,\"receiveHeadersStart\":3,\"receiveHeadersEnd\":5}");
    let p = har_compute_timings(Some(&t), None).unwrap();
    assert_eq!(p.wait, Some(Span { from: Num::Unsigned(2), to: Num::Unsigned(3) }));
    assert_eq!(p.receive, None);
}

#[test]
fn absent_phases_have_no_field() {
    assert_eq!(show(&timings_json(None)), "{\"send\":0,\"wait\":0,\"receive\":0}");
    let v = TimingValues {
        blocked: Some(float(0.0)),
        dns: Some(float(0.0)),
        connect: Some(float(-1.0)),
        ssl: Some(float(2.5)),
        send: float(1.0),
        wait: float(20.0),
        receive: float(0.5),
    };
    assert_eq!(
        show(&timings_json(Some(v))),
        "{\"send\":1.0,\"wait\":20.0,\"receive\":0.5,\"dns\":0.0,\"ssl\":2.5}"
    );
    let none = TimingValues { blocked: Some(float(3.0)), dns: None, connect: None, ssl: None, ..v };
    assert_eq!(
        show(&timings_json(Some(none))),
        "{\"send\":1.0,\"wait\":20.0,\"receive\":0.5,\"blocked\":3.0}"
    );
}

#[test]
fn lengths_are_not_negative() {
    let v = TimingValues {
        blocked: Some(float(-1.0)),
        dns: Some(float(-2.0)),
        connect: None,
        ssl: None,
        send: float(-1.0),
        wait: float(f64::NAN),
        receive: float(2.0),
    };
    assert_eq!(show(&timings_json(Some(v))), "{\"send\":0.0,\"wait\":0.0,\"receive\":2.0}");
    let terms: Vec<f64> = total_terms(v).iter().map(|r| f64::from_bits(r.bits)).collect();
    assert_eq!(terms, vec![0.0, 0.0, 0.0, 0.0, 0.0, 2.0]);
}

#[test]
fn an_entry_shows_the_phases_it_has_data_for() {
    let v = TimingValues {
        blocked: Some(float(1.0)),
        dns: Some(float(2.0)),
        connect: Some(float(3.0)),
        ssl: Some(float(4.0)),
        send: float(5.0),
        wait: float(6.0),
        receive: float(7.0),
    };
    let mut e = entry();
    assert_eq!(timing_values(&e, Some(v)), None);
    e.cdp_timing = Some(parse("{\"dnsStart\":1,\"dnsEnd\":3,\"sendStart\":3,\"sendEnd\":8}"));
    let counted = timing_values(&e, Some(v)).unwrap();
    assert_eq!((counted.blocked, counted.dns), (v.blocked, v.dns));
    assert_eq!((counted.connect, counted.ssl), (None, None));
    assert_eq!((counted.wait, counted.receive), (v.wait, float(0.0)));
    let text = written(e, Some(v), 14.0);
    assert!(text.contains("\"time\":14.0"));
    assert!(text.contains("\"timings\":{\"send\":5.0,\"wait\":6.0,\"receive\":0.0,\"blocked\":1.0,\"dns\":2.0}"));
}

#[test]
fn the_total_leaves_the_handshake_out() {
    let v = TimingValues {
        blocked: Some(float(1.0)),
        dns: Some(float(2.0)),
        connect: Some(float(-3.0)),
        ssl: Some(float(100.0)),
        send: float(4.0),
        wait: float(5.0),
        receive: float(6.0),
    };
    let sum: f64 = total_terms(v).iter().map(|r| f64::from_bits(r.bits)).sum();
    assert_eq!(sum, 18.0);
    assert_eq!(total_terms(v).len(), 6);
}

#[test]
fn writes_a_har_entry() {
    assert_eq!(
        written(entry(), None, 7.0),
        "{\"startedDateTime\":\"2024-01-01T00:00:00Z\",\"time\":0.0,\"request\":{\"method\":\"POST\",\"url\":\"https://x.org/p?a=1&b=%20c\",\"httpVersion\":\"HTTP/2.0\",\"cookies\":[{\"name\":\"k\",\"value\":\"v\"},{\"name\":\"e\",\"value\":\"\"}],\"headers\":[{\"name\":\"Cookie\",\"value\":\"k=v; ; e\"},{\"name\":\"content-TYPE\",\"value\":\"text/csv\"}],\"queryString\":[{\"name\":\"a\",\"value\":\"1\"},{\"name\":\"b\",\"value\":\" c\"}],\"headersSize\":-1,\"bodySize\":3,\"postData\":{\"mimeType\":\"text/csv\",\"text\":\"abc\"}},\"response\":{\"status\":201,\"statusText\":\"Created\",\"httpVersion\":\"HTTP/2.0\",\"cookies\":[{\"name\":\"sid\",\"value\":\"1=2\"}],\"headers\":[{\"name\":\"Set-Cookie\",\"value\":\"sid = 1=2 ; Path=/\"},{\"name\":\"X\",\"value\":\"y\"}],\"content\":{\"size\":-1,\"mimeType\":\"application/octet-stream\"},\"redirectURL\":\"\",\"headersSize\":-1,\"bodySize\":-1},\"cache\":{},\"timings\":{\"send\":0,\"wait\":0,\"receive\":0},\"_resourceType\":\"xhr\"}"
    );
}

#[test]
fn a_bare_har_entry_has_defaults() {
    let bare = |post_data: Option<&str>| {
        let mut e = entry();
        e.request_headers = vec![];
        e.response_headers = vec![];
        e.post_data = post_data.map(|t| t.to_string());
        e.status = None;
        e.mime_type = "text/html".to_string();
        written(e, None, 0.0)
    };
    let text = bare(Some("x"));
    assert!(text.contains("\"cookies\":[],\"headers\":[]"));
    assert!(text.contains("\"postData\":{\"mimeType\":\"text/plain\",\"text\":\"x\"}"));
    assert!(text.contains("\"status\":0"));
    assert!(text.contains("\"mimeType\":\"text/html\""));
    assert!(!bare(None).contains("postData"));
}

#[test]
fn an_entry_starts_at_its_own_moment() {
    let started = |wall_time: f64, nanos: i128| {
        let mut e = entry();
        e.wall_time = float(wall_time);
        let text = show(&har_entry_to_json(&Recorded::new(e, nanos, None, float(0.0))));
        text.split('"').nth(3).unwrap().to_string()
    };
    assert_eq!(started(1.5, 1_500_000_000), "1970-01-01T00:00:01.5Z");
    assert_eq!(started(1.0, NEW_YEAR), "2024-01-01T00:00:00Z");
    for (wall_time, nanos) in [(0.0, 0), (-1.0, -1_000_000_000), (f64::NAN, 0), (1e30, i128::MAX)] {
        let now = started(wall_time, nanos);
        assert!(now.starts_with("20") && now.ends_with('Z'), "{}", now);
    }
}

#[test]
fn an_export_has_every_request() {
    let record = |url: &str| {
        let mut e = entry();
        e.url = url.to_string();
        Recorded::new(e, NEW_YEAR, None, float(0.0))
    };
    let list = vec![record("https://a.org/"), record("https://b.org/")];
    let stop = handle_har_stop(&list, "p.har", "1.2.3", Some(Json::truth(true)));
    let entries: Vec<String> = list.iter().map(|r| show(&har_entry_to_json(r))).collect();
    assert!(entries[0].contains("https://a.org/") && entries[1].contains("https://b.org/"));
    assert_eq!(
        show(&stop.document),
        format!(
            "{{\"log\":{{\"version\":\"1.2\",\"creator\":{{\"name\":\"agent-browser\",\"version\":\"1.2.3\"}},\"entries\":[{}],\"browser\":true}}}}",
            entries.join(",")
        )
    );
    assert_eq!(show(&stop.reply), "{\"path\":\"p.har\",\"requestCount\":2}");
    let none = handle_har_stop(&vec![], "p", "1", None);
    assert!(show(&none.document).ends_with("\"entries\":[]}}"));
    assert_eq!(show(&none.reply), "{\"path\":\"p\",\"requestCount\":0}");
}

#[test]
fn writes_moments() {
    assert_eq!(har_wall_time_to_rfc3339(Some(1_710_671_400_456_000_000)), "2024-03-17T10:30:00.456Z");
    assert_eq!(har_wall_time_to_rfc3339(Some(0)), "1970-01-01T00:00:00Z");
    assert_eq!(har_wall_time_to_rfc3339(Some(-62_167_219_200_000_000_000)), "0000-01-01T00:00:00Z");
    assert_eq!(
        har_wall_time_to_rfc3339(Some(253_402_300_799_999_999_999)),
        "9999-12-31T23:59:59.999999999Z"
    );
    for n in [None, Some(i128::MAX), Some(253_402_300_800_000_000_000), Some(-62_167_219_200_000_000_001)] {
        let now = har_wall_time_to_rfc3339(n);
        assert!(now.starts_with("20") && now.ends_with('Z'), "{}", now);
    }
}

#[test]
fn the_start_falls_back() {
    let s = |t: &str| Some(t.to_string());
    assert_eq!(started_date_time(s("a"), s("b")), "a");
    assert_eq!(started_date_time(None, s("b")), "b");
    assert_eq!(started_date_time(None, None), "1970-01-01T00:00:00Z");
}

#[test]
fn chooses_where_to_export() {
    assert_eq!(har_output_path(Some("x.har"), 5), HarTarget::Path("x.har".to_string()));
    assert_eq!(
        har_output_path(None, 1700000000123),
        HarTarget::InDirectory("har-1700000000123.har".to_string())
    );
    assert_eq!(get_har_dir(true), vec![".agent-browser", "tmp", "har"]);
    assert_eq!(get_har_dir(false), vec!["agent-browser", "har"]);
}

#[test]
fn tells_the_browser() {
    let b = |t: &str| browser_metadata_from_version(&parse(t)).map(|j| show(&j));
    assert_eq!(
        b("{\"product\":\"Chrome/120.0/x\"}").as_deref(),
        Some("{\"name\":\"Chrome\",\"version\":\"120.0/x\"}")
    );
    assert_eq!(b("{\"product\":\"Lynx\"}").as_deref(), Some("{\"name\":\"Lynx\",\"version\":\"\"}"));
    assert_eq!(b("{}"), None);
}

#[test]
fn writes_the_har_document() {
    assert_eq!(
        show(&har_log(vec![Json::Null], "1.2.3", None)),
        "{\"log\":{\"version\":\"1.2\",\"creator\":{\"name\":\"agent-browser\",\"version\":\"1.2.3\"},\"entries\":[null]}}"
    );
    assert!(show(&har_log(vec![], "1", Some(Json::truth(true))))
        .ends_with("\"entries\":[],\"browser\":true}}"));
    assert_eq!(show(&har_stop_reply("p", 2)), "{\"path\":\"p\",\"requestCount\":2}");
}

#[test]
fn a_capture_hands_out_its_entries_once() {
    let mut r = HarRecorder { recording: false, entries: vec![entry()] };
    r.begin();
    assert!(r.recording && r.entries.is_empty());
    r.entries.push(entry());
    assert_eq!(r.finish(), vec![entry()]);
    assert!(!r.recording && r.entries.is_empty());
}

#[test]
fn a_capture_listens_to_all_frames() {
    let b = Browser::Session("s".to_string());
    let start = handle_har_start(&b, &vec!["f1".to_string(), "f2".to_string()]).unwrap();
    assert_eq!(sent(&start.command), "Network.enable - s");
    assert_eq!(
        start.frame_commands.iter().map(sent).collect::<Vec<_>>(),
        vec!["Network.enable - f1", "Network.enable - f2"]
    );
    assert_eq!(show(&start.reply), "{\"started\":true}");
    assert_eq!(
        handle_har_start(&Browser::NotLaunched, &vec![]).unwrap_err(),
        "Browser not launched"
    );
}

#[test]
fn guards_video_recordings() {
    let b = Browser::Session("s".to_string());
    let cmd = parse("{\"path\":\"v.webm\"}");
    let v = handle_video_start(&cmd, false, &b).unwrap();
    assert_eq!((v.path.as_str(), v.session.as_str()), ("v.webm", "s"));
    assert_eq!(
        show(&v.reply),
        "{\"started\":true,\"note\":\"Video recording started. Use video_stop to save the recording.\"}"
    );
    assert_eq!(
        handle_video_start(&cmd, true, &Browser::NotLaunched).unwrap_err(),
        "A recording is already in progress"
    );
    assert_eq!(
        handle_video_start(&cmd, false, &Browser::NotLaunched).unwrap_err(),
        "Browser not launched"
    );
    assert_eq!(
        handle_video_start(&parse("{}"), true, &b).unwrap_err(),
        "Missing 'path' parameter"
    );
    assert_eq!(handle_video_stop(true), None);
    assert_eq!(
        show(&handle_video_stop(false).unwrap()),
        "{\"stopped\":false,\"note\":\"No video recording was started. Use recording_stop if you used recording_start.\"}"
    );
}
