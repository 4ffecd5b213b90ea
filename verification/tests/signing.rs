use agent_browser::auth::{
    after_look, after_round, auto_submit_selectors, fallback_user_selectors, first_look,
    found_element, handle_auth_login, handle_auth_save, preferred_user_selectors, prepare_login,
    probe_command, probe_script, Credential, Login, WaitStep,
};
use agent_browser::cdp::CdpCommand;
use agent_browser::json::{Json, Num, Real};
use agent_browser::login::{
    is_navigation, login_action, login_next, LoginAction, LoginState, LoginTiming,
};

fn convert(v: &serde_json::Value) -> Json {
    match v {
        serde_json::Value::Null => Json::Null,
        serde_json::Value::Bool(b) => Json::Bool(*b),
        serde_json::Value::Number(n) => Json::Number(if let Some(u) = n.as_u64() {
            Num::Unsigned(u)
        } else if let Some(i) = n.as_i64() {
            Num::Negative(i)
        } else {
            Num::Float(Real { bits: n.as_f64().unwrap().to_bits() })
        }),
        serde_json::Value::String(s) => Json::Str(s.clone()),
        serde_json::Value::Array(a) => Json::Array(a.iter().map(convert).collect()),
        serde_json::Value::Object(m) => {
            Json::Object(m.iter().map(|(k, v)| (k.clone(), convert(v))).collect())
        }
    }
}

fn parse(text: &str) -> Json {
    convert(&serde_json::from_str(text).unwrap())
}

fn show(j: &Json) -> String {
    match j {
        Json::Null => "null".to_string(),
        Json::Bool(b) => b.to_string(),
        Json::Number(Num::Unsigned(n)) => n.to_string(),
        Json::Number(Num::Negative(n)) => n.to_string(),
        Json::Number(Num::Float(x)) => format!("{:?}", f64::from_bits(x.bits)),
        Json::Str(s) => format!("{:?}", s),
        Json::Array(a) => format!("[{}]", a.iter().map(show).collect::<Vec<_>>().join(",")),
        Json::Object(o) => format!(
            "{{{}}}",
            o.iter().map(|(k, v)| format!("{:?}:{}", k, show(v))).collect::<Vec<_>>().join(",")
        ),
    }
}

fn sent(c: &CdpCommand) -> String {
    format!(
        "{} {} {}",
        c.method,
        c.params.as_ref().map(show).unwrap_or_else(|| "-".to_string()),
        c.session.as_deref().unwrap_or("-")
    )
}

const TIMING: LoginTiming = LoginTiming { timeout_ms: 25_000, preferred_limit_ms: 5_000 };

fn credential() -> Credential {
    Credential {
        url: Some("https://x.org/login".to_string()),
        username: "me".to_string(),
        password: "secret".to_string(),
        username_selector: None,
        password_selector: None,
        submit_selector: Some("#go".to_string()),
    }
}

fn login() -> Login {
    prepare_login("n", &parse("{}"), &credential()).unwrap()
}

fn ok(s: &str) -> Result<String, String> {
    Ok(s.to_string())
}

fn err(s: &str) -> Result<String, String> {
    Err(s.to_string())
}

#[test]
fn credentials_need_four_parts() {
    let save = |t: &str| handle_auth_save(&parse(t)).map(|r| (r.name, r.submit_selector));
    assert_eq!(save("{}").unwrap_err(), "Missing 'name'");
    assert_eq!(save("{\"name\":\"n\"}").unwrap_err(), "Missing 'url'");
    assert_eq!(save("{\"name\":\"n\",\"url\":\"u\"}").unwrap_err(), "Missing 'username'");
    assert_eq!(
        save("{\"name\":\"n\",\"url\":\"u\",\"username\":\"a\"}").unwrap_err(),
        "Missing 'password'"
    );
    let r = handle_auth_save(&parse("{\"name\":\"n\",\"url\":\"u\",\"username\":\"a\",\"password\":\"b\",\"submitSelector\":\"s\"}")).unwrap();
    assert_eq!((r.name.as_str(), r.url.as_str()), ("n", "u"));
    assert_eq!((r.username.as_str(), r.password.as_str()), ("a", "b"));
    assert_eq!((r.username_selector, r.submit_selector.as_deref()), (None, Some("s")));
}

#[test]
fn a_login_needs_a_name_and_a_browser() {
    assert_eq!(handle_auth_login(&parse("{}"), false).unwrap_err(), "Missing 'name'");
    assert_eq!(
        handle_auth_login(&parse("{\"name\":\"n\"}"), false).unwrap_err(),
        "Browser not launched"
    );
    let q = handle_auth_login(
        &parse("{\"name\":\"n\",\"credentialProvider\":\"p\",\"credentialItem\":\"i\"}"),
        true,
    )
    .unwrap();
    assert_eq!((q.name.as_str(), q.url), ("n", None));
    assert_eq!((q.provider.as_deref(), q.item.as_deref()), (Some("p"), Some("i")));
}

#[test]
fn a_command_goes_before_credentials() {
    let l = prepare_login(
        "n",
        &parse("{\"url\":\"https://y.org\",\"usernameSelector\":\"#u\",\"passwordSelector\":\"#p\",\"submitSelector\":\"#s\"}"),
        &credential(),
    )
    .unwrap();
    assert_eq!(l.url, "https://y.org");
    assert_eq!(l.username_selector.as_deref(), Some("#u"));
    assert_eq!(l.password_selector, "#p");
    assert_eq!(l.submit_selector.as_deref(), Some("#s"));
    let l = login();
    assert_eq!((l.name.as_str(), l.url.as_str()), ("n", "https://x.org/login"));
    assert_eq!(l.username_selector, None);
    assert_eq!(l.password_selector, "input[type=password]");
    assert_eq!(l.submit_selector.as_deref(), Some("#go"));
}

#[test]
fn a_login_needs_a_url() {
    let mut c = credential();
    c.url = None;
    assert_eq!(prepare_login("n", &parse("{}"), &c).unwrap_err(), "Credential has no URL");
    c.url = Some("u".to_string());
    assert_eq!(
        prepare_login("n", &parse("{\"url\":\"\"}"), &c).unwrap_err(),
        "Credential has no URL"
    );
}

#[test]
fn probes_quote_their_selector() {
    let s = probe_script("a[b=\"c\\d\"]\n\u{1}é");
    assert!(s.contains("document.querySelector(\"a[b=\\\"c\\\\d\\\"]\\n\\u0001é\");"), "{}", s);
    assert!(s.starts_with("(() => {\n"));
    assert!(s.ends_with("return true;\n                })()"));
    let c = probe_command("x", "s");
    assert_eq!((c.method.as_str(), c.session.as_deref()), ("Runtime.evaluate", Some("s")));
    let p = c.params.unwrap();
    assert_eq!(p.str_at("expression"), Some(probe_script("x").as_str()));
    assert_eq!((p.bool_at("returnByValue"), p.bool_at("awaitPromise")), (Some(true), Some(true)));
}

#[test]
fn only_true_confirms_an_element() {
    assert!(found_element(&parse("{\"result\":{\"value\":true}}")));
    assert!(!found_element(&parse("{\"result\":{\"value\":1}}")));
    assert!(!found_element(&parse("{\"result\":{}}")));
    assert!(!found_element(&parse("{}")));
}

#[test]
fn a_wait_takes_the_first_match() {
    let yes = || Ok(parse("{\"result\":{\"value\":true}}"));
    let no = || Ok(parse("{\"result\":{\"value\":false}}"));
    assert_eq!(first_look(3), WaitStep::Look(0));
    assert_eq!(first_look(0), WaitStep::RoundOver);
    assert_eq!(after_look(3, 0, no()), WaitStep::Look(1));
    assert_eq!(after_look(3, 1, yes()), WaitStep::Found(1));
    assert_eq!(after_look(3, 2, no()), WaitStep::RoundOver);
    assert_eq!(after_look(3, 0, Err("e".to_string())), WaitStep::Failed("e".to_string()));
    assert_eq!(after_round(false, 500), None);
    assert_eq!(after_round(true, 500).as_deref(), Some("Wait timed out after 500ms"));
}

#[test]
fn a_login_fills_in_and_submits() {
    let l = login();
    let mut state = LoginState::Navigate;
    let mut seen = Vec::new();
    loop {
        let action = login_action(&l, TIMING, &state);
        seen.push(format!("{:?}", action));
        let answer = match &action {
            LoginAction::Finish(_) => break,
            LoginAction::WaitAny(list, _) => ok(&list[1]),
            LoginAction::AwaitNavigation(_) => err("none"),
            _ => ok(""),
        };
        state = login_next(&l, TIMING, state, answer).unwrap();
    }
    assert_eq!(seen[0], "Navigate(\"https://x.org/login\")");
    assert!(seen[1].starts_with("WaitAny([\"input[type=email]\", \"input[name=email]\"") && seen[1].ends_with(", 5000)"));
    assert_eq!(seen[2], "Fill(\"input[name=email]\", \"me\")");
    assert_eq!(seen[3], "WaitVisible(\"input[type=password]\", 25000)");
    assert_eq!(seen[4], "Fill(\"input[type=password]\", \"secret\")");
    assert_eq!(seen[5], "WaitVisible(\"#go\", 25000)");
    assert_eq!(seen[6], "Click(\"#go\")");
    assert_eq!(seen[7], "AwaitNavigation(10)");
    assert_eq!(seen[8], "Sleep(2)");
    assert_eq!(seen.len(), 10);
    match login_action(&l, TIMING, &state) {
        LoginAction::Finish(r) => assert_eq!(show(&r), "{\"loggedIn\":true,\"name\":\"n\"}"),
        _ => panic!("not finished"),
    }
}

#[test]
fn windows_fill_the_timeout() {
    let l = login();
    let windows = |t: LoginTiming| {
        let at = |s| match login_action(&l, t, &s) {
            LoginAction::WaitAny(_, ms) => ms,
            _ => panic!("no wait"),
        };
        (at(LoginState::WaitPreferred), at(LoginState::WaitFallback))
    };
    assert_eq!(windows(TIMING), (5_000, 20_000));
    assert_eq!(windows(LoginTiming { timeout_ms: 3_000, preferred_limit_ms: 5_000 }), (3_000, 0));
}

#[test]
fn a_login_tells_what_it_waited_for() {
    let l = login();
    let fail = |s: LoginState, t: LoginTiming| login_next(&l, t, s, err("boom")).unwrap_err();
    let short = LoginTiming { timeout_ms: 100, preferred_limit_ms: 5_000 };
    let preferred = preferred_user_selectors().join(", ");
    assert_eq!(fail(LoginState::Navigate, TIMING), "boom");
    assert_eq!(
        fail(LoginState::WaitUser("#u".to_string()), TIMING),
        "Timed out waiting for username selector '#u'"
    );
    assert_eq!(
        fail(LoginState::WaitPreferred, short),
        format!("Timed out waiting for username field (preferred selectors for 100ms: {})", preferred)
    );
    assert_eq!(
        login_next(&l, TIMING, LoginState::WaitPreferred, err("x")),
        Ok(LoginState::WaitFallback)
    );
    assert_eq!(
        fail(LoginState::WaitFallback, TIMING),
        format!("Timed out waiting for username field (preferred selectors for 5000ms: {}; fallback selectors for 20000ms: input[type=text], input:not([type]))", preferred)
    );
    assert_eq!(fail(LoginState::FillUser("#u".to_string()), TIMING), "boom");
    assert_eq!(
        fail(LoginState::WaitPassword, TIMING),
        "Timed out waiting for password selector 'input[type=password]'"
    );
    assert_eq!(fail(LoginState::FillPassword, TIMING), "boom");
    assert_eq!(
        fail(LoginState::WaitSubmit("#s".to_string()), TIMING),
        "Timed out waiting for submit selector '#s'"
    );
    assert_eq!(
        fail(LoginState::WaitAnySubmit, TIMING),
        "Timed out waiting for submit button (tried selectors: button[type=submit], input[type=submit], button:not([type]))"
    );
    assert_eq!(fail(LoginState::Click("#s".to_string()), TIMING), "boom");
}

#[test]
fn a_login_takes_given_selectors() {
    let mut l = login();
    l.username_selector = Some("#u".to_string());
    l.submit_selector = None;
    assert_eq!(
        login_next(&l, TIMING, LoginState::Navigate, ok("")),
        Ok(LoginState::WaitUser("#u".to_string()))
    );
    assert_eq!(
        login_next(&l, TIMING, LoginState::WaitUser("#u".to_string()), ok("")),
        Ok(LoginState::FillUser("#u".to_string()))
    );
    assert_eq!(
        login_next(&l, TIMING, LoginState::FillPassword, ok("")),
        Ok(LoginState::WaitAnySubmit)
    );
    assert_eq!(
        login_next(&l, TIMING, LoginState::WaitAnySubmit, ok("b")),
        Ok(LoginState::Click("b".to_string()))
    );
    assert_eq!(
        login_next(&l, TIMING, LoginState::AwaitNavigation, ok("")),
        Ok(LoginState::Done)
    );
    assert_eq!(login_next(&l, TIMING, LoginState::Settle, err("x")), Ok(LoginState::Done));
}

#[test]
fn lists_of_selectors() {
    assert_eq!(preferred_user_selectors().len(), 16);
    assert_eq!(preferred_user_selectors()[6], "input[name*=email i]");
    assert_eq!(fallback_user_selectors(), vec!["input[type=text]", "input:not([type])"]);
    assert_eq!(auto_submit_selectors().len(), 3);
}

#[test]
fn sees_navigations_of_its_session() {
    assert!(is_navigation(Some("s"), "Page.frameNavigated", "s"));
    assert!(is_navigation(Some("s"), "Page.loadEventFired", "s"));
    assert!(!is_navigation(Some("t"), "Page.loadEventFired", "s"));
    assert!(!is_navigation(None, "Page.loadEventFired", "s"));
    assert!(!is_navigation(Some("s"), "Page.frameStartedLoading", "s"));
}
