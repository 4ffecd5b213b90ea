use agent_browser::json::{Json, Num, Real};
use agent_browser::options::{
    apply_launch_mutator_plugins, hide_scrollbars_from_env, hide_scrollbars_from_launch_cmd,
    launch_options_from_command, launch_options_from_env, mutator_request, proxy_credentials,
    Environment, Mutation,
};

fn convert(v: &serde_json::Value) -> Json {
    match v {
        serde_json::Value::Null => Json::Null,
        serde_json::Value::Bool(b) => Json::Bool(*b),
        serde_json::Value::Number(n) => Json::Number(if let Some(u) = n.as_u64() {
            Num::Unsigned(u)
        } else if let Some(i) = n.as_i64() {
            Num::Negative(i)
        } else {
            Num::Float(Real { bits: n.as_f64().unwrap().to_bits() })
        }),
        serde_json::Value::String(s) => Json::Str(s.clone()),
        serde_json::Value::Array(a) => Json::Array(a.iter().map(convert).collect()),
        serde_json::Value::Object(m) => {
            Json::Object(m.iter().map(|(k, v)| (k.clone(), convert(v))).collect())
        }
    }
}

fn parse(text: &str) -> Json {
    convert(&serde_json::from_str(text).unwrap())
}

fn show(j: &Json) -> String {
    match j {
        Json::Null => "null".to_string(),
        Json::Bool(b) => b.to_string(),
        Json::Number(Num::Unsigned(n)) => n.to_string(),
        Json::Number(Num::Negative(n)) => n.to_string(),
        Json::Number(Num::Float(x)) => format!("{:?}", f64::from_bits(x.bits)),
        Json::Str(s) => format!("{:?}", s),
        Json::Array(a) => format!("[{}]", a.iter().map(show).collect::<Vec<_>>().join(",")),
        Json::Object(o) => format!(
            "{{{}}}",
            o.iter().map(|(k, v)| format!("{:?}:{}", k, show(v))).collect::<Vec<_>>().join(",")
        ),
    }
}

fn env(vars: &[(&str, &str)]) -> Environment {
    Environment { vars: vars.iter().map(|(k, v)| (k.to_string(), v.to_string())).collect() }
}

fn strings(list: &[&str]) -> Vec<String> {
    list.iter().map(|s| s.to_string()).collect()
}

#[test]
fn an_empty_environment_has_defaults() {
    let o = launch_options_from_env(&env(&[]));
    assert!(o.headless && o.hide_scrollbars);
    assert!(!o.allow_file_access && !o.ignore_https_errors && !o.use_real_keychain);
    assert!(o.args.is_empty());
    assert_eq!((o.extensions, o.proxy, o.viewport_size), (None, None, None));
}

#[test]
fn the_environment_sets_every_option() {
    let o = launch_options_from_env(&env(&[
        ("AGENT_BROWSER_HEADED", "true"),
        ("AGENT_BROWSER_EXECUTABLE_PATH", "/x"),
        ("AGENT_BROWSER_PROXY", "p"),
        ("AGENT_BROWSER_PROXY_BYPASS", "b"),
        ("AGENT_BROWSER_PROXY_USERNAME", "u"),
        ("AGENT_BROWSER_PROXY_PASSWORD", "w"),
        ("AGENT_BROWSER_PROFILE", "pr"),
        ("AGENT_BROWSER_ALLOW_FILE_ACCESS", "1"),
        ("AGENT_BROWSER_ARGS", "--a, --b\n,--c"),
        ("AGENT_BROWSER_EXTENSIONS", " "),
        ("AGENT_BROWSER_STATE", "st"),
        ("AGENT_BROWSER_USER_AGENT", "ua"),
        ("AGENT_BROWSER_IGNORE_HTTPS_ERRORS", "yes"),
        ("AGENT_BROWSER_COLOR_SCHEME", "dark"),
        ("AGENT_BROWSER_DOWNLOAD_PATH", "d"),
        ("AGENT_BROWSER_HIDE_SCROLLBARS", "FALSE"),
    ]));
    assert!(!o.headless && o.allow_file_access && !o.ignore_https_errors && !o.hide_scrollbars);
    assert_eq!(o.executable_path.as_deref(), Some("/x"));
    assert_eq!(o.proxy.as_deref(), Some("p"));
    assert_eq!(o.proxy_bypass.as_deref(), Some("b"));
    assert_eq!(o.profile.as_deref(), Some("pr"));
    assert_eq!(o.args, strings(&["--a", "--b", "--c"]));
    assert_eq!(o.extensions, Some(vec![]));
    assert_eq!(o.storage_state.as_deref(), Some("st"));
    assert_eq!(o.user_agent.as_deref(), Some("ua"));
    assert_eq!(o.color_scheme.as_deref(), Some("dark"));
    assert_eq!(o.download_path.as_deref(), Some("d"));
    assert_eq!(proxy_credentials(&o), Some(("u".to_string(), "w".to_string())));
}

#[test]
fn scroll_bars_are_hidden_unless_refused() {
    for (v, hidden) in [("0", false), ("No", false), ("", false), ("false", false), ("1", true), ("off", true)] {
        assert_eq!(hide_scrollbars_from_env(&env(&[("AGENT_BROWSER_HIDE_SCROLLBARS", v)])), hidden);
    }
    assert!(hide_scrollbars_from_env(&env(&[])));
    let off = env(&[("AGENT_BROWSER_HIDE_SCROLLBARS", "0")]);
    assert!(hide_scrollbars_from_launch_cmd(&parse("{\"hideScrollbars\":true}"), &off));
    assert!(!hide_scrollbars_from_launch_cmd(&parse("{\"hideScrollbars\":\"yes\"}"), &off));
}

#[test]
fn a_command_goes_before_the_environment() {
    let e = env(&[
        ("AGENT_BROWSER_EXECUTABLE_PATH", "/env"),
        ("AGENT_BROWSER_PROXY_USERNAME", "eu"),
        ("AGENT_BROWSER_PROXY_PASSWORD", "ep"),
        ("AGENT_BROWSER_PROXY", "ignored"),
        ("AGENT_BROWSER_PROFILE", "ignored"),
    ]);
    let o = launch_options_from_command(&parse("{}"), &e);
    assert!(o.headless);
    assert_eq!(o.executable_path.as_deref(), Some("/env"));
    assert_eq!((o.proxy.clone(), o.profile.clone()), (None, None));
    assert_eq!(proxy_credentials(&o), Some(("eu".to_string(), "ep".to_string())));
    let o = launch_options_from_command(
        &parse("{\"headless\":false,\"executablePath\":\"/c\",\"proxy\":{\"server\":\"s\",\"bypass\":\"b\",\"username\":\"u\"},\"args\":[\"-x\",1],\"extensions\":[\"e\"],\"storageState\":\"st\",\"userAgent\":\"ua\",\"ignoreHTTPSErrors\":true,\"allowFileAccess\":true,\"colorScheme\":\"c\",\"downloadPath\":\"d\",\"profile\":\"p\"}"),
        &e,
    );
    assert!(!o.headless && o.ignore_https_errors && o.allow_file_access);
    assert_eq!(o.executable_path.as_deref(), Some("/c"));
    assert_eq!((o.proxy.as_deref(), o.proxy_bypass.as_deref()), (Some("s"), Some("b")));
    assert_eq!(proxy_credentials(&o), Some(("u".to_string(), "ep".to_string())));
    assert_eq!(o.args, strings(&["-x"]));
    assert_eq!(o.extensions, Some(strings(&["e"])));
    let o = launch_options_from_command(&parse("{\"proxy\":\"plain\"}"), &env(&[]));
    assert_eq!((o.proxy.as_deref(), o.proxy_bypass.as_deref()), (Some("plain"), None));
    assert_eq!(proxy_credentials(&o), None);
}

#[test]
fn plugins_only_add() {
    let mut o = launch_options_from_env(&env(&[("AGENT_BROWSER_ARGS", "--a")]));
    let scripts = apply_launch_mutator_plugins(
        &mut o,
        &vec![
            Mutation {
                args: strings(&["--b"]),
                extensions: vec![],
                user_agent: Some("one".to_string()),
                init_scripts: strings(&["s1"]),
            },
            Mutation {
                args: vec![],
                extensions: strings(&["e1", "e2"]),
                user_agent: None,
                init_scripts: strings(&["s2", "s3"]),
            },
        ],
    );
    assert_eq!(o.args, strings(&["--a", "--b"]));
    assert_eq!(o.extensions, Some(strings(&["e1", "e2"])));
    assert_eq!(o.user_agent.as_deref(), Some("one"));
    assert_eq!(scripts, strings(&["s1", "s2", "s3"]));
}

#[test]
fn no_plugins_change_nothing() {
    let mut o = launch_options_from_env(&env(&[]));
    assert!(apply_launch_mutator_plugins(&mut o, &vec![]).is_empty());
    assert_eq!(o, launch_options_from_env(&env(&[])));
}

#[test]
fn tells_plugins_of_a_launch() {
    let o = launch_options_from_command(&parse("{\"args\":[\"-x\"],\"userAgent\":\"ua\"}"), &env(&[]));
    assert_eq!(
        show(&mutator_request("id", &o, &env(&[]))),
        "{\"session\":\"id\",\"launchOptions\":{\"headless\":true,\"engine\":\"chrome\",\"args\":[\"-x\"],\"extensions\":null,\"userAgent\":\"ua\",\"colorScheme\":null,\"downloadPath\":null,\"hideScrollbars\":true,\"allowFileAccess\":false}}"
    );
    let e = env(&[("AGENT_BROWSER_ENGINE", "lightpanda"), ("AGENT_BROWSER_EXTENSIONS", "a")]);
    let text = show(&mutator_request("id", &launch_options_from_env(&e), &e));
    assert!(text.contains("\"engine\":\"lightpanda\"") && text.contains("\"extensions\":[\"a\"]"));
}
