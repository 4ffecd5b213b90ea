use agent_browser::cdp::{Browser, CdpCommand};
use agent_browser::json::{Json, Num, Real};
use agent_browser::launch::{
    after_provider, after_step, apply_launch_init_scripts, auto_launch, auto_provider_route,
    auto_route, bring_to_front, command_route, connect_auto_with_fresh_tab, connect_mode,
    device_request, handle_launch, has_own_headers, ios_driver, keeps, launch_ios, launch_reply,
    launch_safari, needs_relaunch, provider_error, provider_reply, provider_route, restore_name,
    rollback_error, safari_port, storage_session, takes_plugins, unread_script_warning,
    AfterProvider, AfterStep, ConnectMode, Device, InitScript, LaunchAction, LaunchReply,
    LaunchStep, OldBrowser, OnFailure, Relaunch, Route, TabAction,
};
use agent_browser::options::{launch_options_from_command, Environment};

fn convert(v: &serde_json::Value) -> Json {
    match v {
        serde_json::Value::Null => Json::Null,
        serde_json::Value::Bool(b) => Json::Bool(*b),
        serde_json::Value::Number(n) => Json::Number(if let Some(u) = n.as_u64() {
            Num::Unsigned(u)
        } else if let Some(i) = n.as_i64() {
            Num::Negative(i)
        } else {
            Num::Float(Real { bits: n.as_f64().unwrap().to_bits() })
        }),
        serde_json::Value::String(s) => Json::Str(s.clone()),
        serde_json::Value::Array(a) => Json::Array(a.iter().map(convert).collect()),
        serde_json::Value::Object(m) => {
            Json::Object(m.iter().map(|(k, v)| (k.clone(), convert(v))).collect())
        }
    }
}

fn parse(text: &str) -> Json {
    convert(&serde_json::from_str(text).unwrap())
}

fn show(j: &Json) -> String {
    match j {
        Json::Null => "null".to_string(),
        Json::Bool(b) => b.to_string(),
        Json::Number(Num::Unsigned(n)) => n.to_string(),
        Json::Number(Num::Negative(n)) => n.to_string(),
        Json::Number(Num::Float(x)) => format!("{:?}", f64::from_bits(x.bits)),
        Json::Str(s) => format!("{:?}", s),
        Json::Array(a) => format!("[{}]", a.iter().map(show).collect::<Vec<_>>().join(",")),
        Json::Object(o) => format!(
            "{{{}}}",
            o.iter().map(|(k, v)| format!("{:?}:{}", k, show(v))).collect::<Vec<_>>().join(",")
        ),
    }
}

fn sent(c: &CdpCommand) -> String {
    format!(
        "{} {} {}",
        c.method,
        c.params.as_ref().map(show).unwrap_or_else(|| "-".to_string()),
        c.session.as_deref().unwrap_or("-")
    )
}

fn env(vars: &[(&str, &str)]) -> Environment {
    Environment { vars: vars.iter().map(|(k, v)| (k.to_string(), v.to_string())).collect() }
}

fn steps(cmd: &str, e: &Environment, keep: bool, has_old: bool, filtered: bool) -> Vec<LaunchStep> {
    let cmd = parse(cmd);
    let o = launch_options_from_command(&cmd, e);
    handle_launch(&cmd, e, &o, keep, has_old, filtered).steps
}

fn names(list: &Vec<LaunchStep>) -> Vec<String> {
    list.iter()
        .map(|s| {
            let mark = match s.on_failure {
                OnFailure::Abort => "!",
                OnFailure::Ignore => "",
                OnFailure::RollBack => "<",
            };
            format!("{:?}{}", s.action, mark)
        })
        .collect()
}

const LISTEN: [&str; 4] =
    ["SubscribeToEvents", "StartFetchHandler", "StartDialogHandler", "UpdateStreamClient"];

fn expect(parts: &[&[&str]]) -> Vec<String> {
    parts.iter().flat_map(|p| p.iter().map(|s| s.to_string())).collect()
}

#[test]
fn chooses_the_way_of_a_command() {
    let way = |t: &str| command_route(&parse(t));
    assert_eq!(
        way("{\"cdpUrl\":\"ws://h\",\"cdpPort\":1,\"autoConnect\":true,\"provider\":\"x\"}"),
        Route::Cdp("ws://h".to_string())
    );
    assert_eq!(way("{\"cdpPort\":9222,\"autoConnect\":true}"), Route::Cdp("9222".to_string()));
    assert_eq!(way("{\"autoConnect\":true,\"provider\":\"x\"}"), Route::Auto);
    assert_eq!(way("{\"autoConnect\":false,\"provider\":\"IOS\"}"), Route::Ios);
    assert_eq!(way("{\"provider\":\"Safari\"}"), Route::Safari);
    assert_eq!(way("{\"provider\":\"BrowserBase\"}"), Route::Provider("BrowserBase".to_string()));
    assert_eq!(way("{\"cdpPort\":\"9222\"}"), Route::Local);
    assert!(Route::Auto.is_external() && Route::Cdp(String::new()).is_external());
    assert!(!Route::Local.is_external() && !Route::Provider(String::new()).is_external());
    assert_eq!(provider_route("X", "ios"), Route::Ios);
    assert_eq!(provider_route("X", "x"), Route::Provider("X".to_string()));
}

#[test]
fn chooses_the_way_of_the_environment() {
    let cdp = ("AGENT_BROWSER_CDP", "9222");
    let auto = ("AGENT_BROWSER_AUTO_CONNECT", "");
    let provider = ("AGENT_BROWSER_PROVIDER", "Kernel");
    assert_eq!(auto_route(&env(&[provider, auto, cdp])), Route::Cdp("9222".to_string()));
    assert_eq!(auto_route(&env(&[provider, auto])), Route::Auto);
    assert_eq!(auto_route(&env(&[provider])), Route::Provider("kernel".to_string()));
    for p in ["", "ios", "SAFARI"] {
        assert_eq!(auto_route(&env(&[("AGENT_BROWSER_PROVIDER", p)])), Route::Local);
    }
    assert_eq!(auto_route(&env(&[])), Route::Local);
    assert_eq!(auto_provider_route("ios".to_string()), Route::Local);
    assert_eq!(auto_provider_route("x".to_string()), Route::Provider("x".to_string()));
}

#[test]
fn keeps_a_browser_only_if_nothing_speaks_against_it() {
    let old = |ext, hash, exited| {
        Some(OldBrowser { is_external: ext, launch_hash: hash, process_exited: exited })
    };
    let local = Route::Local;
    let cdp = Route::Cdp("a".to_string());
    assert_eq!(needs_relaunch(&None, &local, 1, false), Relaunch::Replace);
    assert_eq!(
        needs_relaunch(&old(false, Some(1), false), &local, 1, false),
        Relaunch::ReplaceUnlessAlive
    );
    assert_eq!(needs_relaunch(&old(false, Some(2), false), &local, 1, false), Relaunch::Replace);
    assert_eq!(needs_relaunch(&old(false, None, false), &local, 1, false), Relaunch::Replace);
    assert_eq!(needs_relaunch(&old(true, Some(1), false), &local, 1, false), Relaunch::Replace);
    assert_eq!(needs_relaunch(&old(false, Some(1), true), &local, 1, false), Relaunch::Replace);
    assert_eq!(needs_relaunch(&old(false, Some(1), false), &cdp, 1, false), Relaunch::Replace);
    assert_eq!(
        needs_relaunch(&old(true, None, false), &cdp, 1, true),
        Relaunch::ReplaceUnlessAlive
    );
}

#[test]
fn only_a_live_browser_is_kept() {
    assert!(keeps(Relaunch::ReplaceUnlessAlive, true));
    assert!(!keeps(Relaunch::ReplaceUnlessAlive, false));
    assert!(!keeps(Relaunch::Replace, true));
}

#[test]
fn plugins_add_to_local_launches_only() {
    assert!(takes_plugins(&Route::Local));
    assert!(!takes_plugins(&Route::Auto) && !takes_plugins(&Route::Ios));
    assert!(!takes_plugins(&Route::Provider("p".to_string())));
}

#[test]
fn storage_gets_a_fresh_browser() {
    let old = Some(OldBrowser { is_external: false, launch_hash: Some(1), process_exited: false });
    assert_eq!(needs_relaunch(&old, &Route::Local, 1, true), Relaunch::Replace);
}

#[test]
fn connects_to_an_address() {
    let got = steps("{\"cdpPort\":9222,\"storageState\":\"st\"}", &env(&[]), false, true, false);
    assert_eq!(
        names(&got),
        expect(&[
            &["CloseBrowser!", "ClearRefs", "ValidateOptions(true)!", "ResetInput"],
            &["ConnectCdp(\"9222\")!"],
            &LISTEN,
            &["LoadStorageState(\"st\")<", "ApplyInitScripts"],
        ])
    );
}

#[test]
fn connects_automatically() {
    let got = steps("{\"autoConnect\":true}", &env(&[]), false, false, false);
    assert_eq!(
        names(&got),
        expect(&[
            &["ClearRefs", "ValidateOptions(false)!", "ResetInput", "ConnectAuto!"],
            &LISTEN,
            &["ApplyInitScripts"],
        ])
    );
}

#[test]
fn connects_by_a_provider() {
    let got = steps("{\"provider\":\"Kernel\"}", &env(&[]), false, false, false);
    assert_eq!(
        names(&got),
        expect(&[
            &["ClearRefs", "ValidateOptions(false)!", "ConnectProvider(\"Kernel\")!", "ResetInput"],
            &["RememberProviderSession"],
            &LISTEN,
            &["WriteProviderFile(\"Kernel\")", "ApplyInitScripts"],
        ])
    );
    let got = steps("{\"provider\":\"ios\",\"storageState\":\"st\"}", &env(&[]), false, false, false);
    assert_eq!(names(&got), expect(&[&["ClearRefs", "ValidateOptions(false)!", "LaunchIos!"]]));
    let got = steps("{\"provider\":\"safari\"}", &env(&[]), false, false, false);
    assert_eq!(names(&got), expect(&[&["ClearRefs", "ValidateOptions(false)!", "LaunchSafari!"]]));
}

#[test]
fn launches_a_local_browser() {
    let got = steps(
        "{\"allowedDomains\":\"x.org\",\"proxy\":{\"username\":\"u\"},\"storageState\":\"st\"}",
        &env(&[("AGENT_BROWSER_ENGINE", "lp")]),
        false,
        false,
        false,
    );
    assert_eq!(
        names(&got),
        expect(&[
            &["ClearRefs", "ValidateOptions(false)!", "StoreProxyCredentials(\"u\", \"\")"],
            &["SetDomainFilter(\"x.org\")", "SetEngine(\"lp\")", "WriteEngineFile"],
            &["WriteExtensionsFileFromOptions", "ResetInput", "LaunchLocal(Some(\"lp\"))!"],
            &["RememberLaunchHash"],
            &LISTEN,
            &["InstallDomainFilter(true)", "SanitizeOpenPages", "LoadStorageState(\"st\")<"],
            &["ApplyInitScripts"],
        ])
    );
}

#[test]
fn a_plain_launch_intercepts_nothing() {
    let got = names(&steps("{}", &env(&[]), false, false, false));
    assert!(got.contains(&"SetEngine(\"chrome\")".to_string()));
    assert!(got.contains(&"LaunchLocal(None)!".to_string()));
    assert!(!got.iter().any(|s| s.starts_with("Install")));
}

#[test]
fn interception_is_installed_once() {
    for (cmd, filtered, want) in [
        ("{}", true, "InstallDomainFilter(false)"),
        ("{\"proxy\":{\"username\":\"u\"}}", false, "InstallFetchForProxy"),
        ("{\"proxy\":{\"username\":\"u\"}}", true, "InstallDomainFilter(true)"),
        ("{\"allowedDomains\":\"a\"}", false, "InstallDomainFilter(false)"),
    ] {
        let got = names(&steps(cmd, &env(&[]), false, false, filtered));
        let installed: Vec<&String> = got.iter().filter(|s| s.starts_with("Install")).collect();
        assert_eq!(installed, vec![want]);
        let cleaned = got.iter().position(|s| s == "SanitizeOpenPages");
        let filter = got.iter().position(|s| s.starts_with("InstallDomainFilter"));
        assert_eq!(cleaned, filter.map(|i| i + 1));
    }
}

#[test]
fn a_kept_browser_is_left_alone() {
    assert!(steps("{}", &env(&[]), true, true, true).is_empty());
    let got = steps("{\"storageState\":\"st\",\"cdpUrl\":\"u\"}", &env(&[]), true, true, false);
    assert_eq!(names(&got), expect(&[&["LoadStorageState(\"st\")!"]]));
}

#[test]
fn launches_without_a_command() {
    let a = auto_launch(&env(&[("AGENT_BROWSER_PROXY_USERNAME", "u"), ("AGENT_BROWSER_STATE", "st")]), Some((800, 600)));
    assert_eq!(a.options.viewport_size, Some((800, 600)));
    assert_eq!(
        names(&a.steps),
        expect(&[
            &["StoreProxyCredentials(\"u\", \"\")", "SetEngine(\"chrome\")", "WriteEngineFile"],
            &["WriteExtensionsFile", "ApplyMutators!", "WriteExtensionsFileFromOptions"],
            &["LaunchLocal(None)!", "ResetInput", "RememberLaunchHash"],
            &LISTEN,
            &["InstallFetchForProxy", "ApplyInitScripts", "RestoreSession"],
            &["LoadStorageState(\"st\")"],
        ])
    );
}

#[test]
fn connects_without_a_command() {
    let e = env(&[("AGENT_BROWSER_CDP", "c"), ("AGENT_BROWSER_ENGINE", "e")]);
    assert_eq!(
        names(&auto_launch(&e, None).steps),
        expect(&[
            &["SetEngine(\"e\")", "WriteEngineFile", "WriteExtensionsFile"],
            &["ConnectCdp(\"c\")!", "ResetInput"],
            &LISTEN,
            &["ApplyInitScripts", "RestoreSession"],
        ])
    );
    let e = env(&[("AGENT_BROWSER_AUTO_CONNECT", "1")]);
    assert_eq!(names(&auto_launch(&e, None).steps)[3..5], ["ResetInput", "ConnectAuto!"]);
    let e = env(&[("AGENT_BROWSER_PROVIDER", "Kernel")]);
    assert_eq!(
        names(&auto_launch(&e, None).steps)[3..],
        expect(&[
            &["ConnectProvider(\"kernel\")!", "ResetInput", "RememberProviderSession"],
            &LISTEN,
            &["WriteProviderFile(\"kernel\")", "ApplyInitScripts", "RestoreSession"],
        ])
    );
}

#[test]
fn failures_end_a_launch_or_not() {
    let e = || Err("e".to_string());
    assert_eq!(after_step(OnFailure::Abort, Ok(())), AfterStep::Next);
    assert_eq!(after_step(OnFailure::Ignore, e()), AfterStep::Next);
    assert_eq!(after_step(OnFailure::Abort, e()), AfterStep::Stop("e".to_string()));
    assert_eq!(after_step(OnFailure::RollBack, e()), AfterStep::RollBack("e".to_string()));
    assert_eq!(rollback_error("e".to_string(), Ok(())), "e");
    assert_eq!(
        rollback_error("e".to_string(), Err("c".to_string())),
        "e (also failed to roll back browser after launch: c)"
    );
}

#[test]
fn lists_init_scripts_in_order() {
    let e = env(&[
        ("AGENT_BROWSER_ENABLE", "react, vue\nreact-devtools"),
        ("AGENT_BROWSER_INIT_SCRIPTS", "a.js,,b.js"),
    ]);
    assert_eq!(
        apply_launch_init_scripts(&e, &vec!["p()".to_string()]),
        vec![
            InitScript::ReactHook,
            InitScript::Unknown("warning: unknown --enable feature 'vue'".to_string()),
            InitScript::ReactHook,
            InitScript::File("a.js".to_string()),
            InitScript::File("b.js".to_string()),
            InitScript::Source("p()".to_string()),
        ]
    );
    assert!(apply_launch_init_scripts(&env(&[]), &vec![]).is_empty());
    assert_eq!(
        unread_script_warning("a.js", "gone"),
        "warning: failed to read --init-script 'a.js': gone"
    );
}

#[test]
fn reaches_providers() {
    assert_eq!(connect_mode(true, true), ConnectMode::Direct);
    assert_eq!(connect_mode(false, true), ConnectMode::WithHeaders);
    assert_eq!(connect_mode(false, false), ConnectMode::Plain);
    assert!(has_own_headers("AgentCore") && !has_own_headers("kernel"));
    assert_eq!(provider_error("p", "e"), "Provider 'p' connection failed: e");
}

#[test]
fn each_way_has_its_answer() {
    let reply = |t: &str, keep: bool| {
        let (cmd, e) = (parse(t), env(&[]));
        let o = launch_options_from_command(&cmd, &e);
        handle_launch(&cmd, &e, &o, keep, false, false).reply
    };
    assert_eq!(reply("{}", false), LaunchReply::Plain(launch_reply(false)));
    assert_eq!(reply("{\"cdpPort\":1}", false), LaunchReply::Plain(launch_reply(false)));
    assert_eq!(reply("{\"provider\":\"K\"}", false), LaunchReply::OfProvider("K".to_string()));
    assert_eq!(reply("{\"provider\":\"ios\"}", false), LaunchReply::OfDevice);
    assert_eq!(reply("{\"provider\":\"safari\"}", false), LaunchReply::OfDevice);
    assert_eq!(reply("{\"provider\":\"K\"}", true), LaunchReply::Plain(launch_reply(true)));
}

#[test]
fn answers_to_launches() {
    assert_eq!(show(&launch_reply(false)), "{\"launched\":true}");
    assert_eq!(show(&launch_reply(true)), "{\"launched\":true,\"reused\":true}");
    assert_eq!(
        show(&provider_reply("p", None, None)),
        "{\"launched\":true,\"provider\":\"p\"}"
    );
    assert_eq!(
        show(&provider_reply("p", None, Some(Json::truth(true)))),
        "{\"launched\":true,\"provider\":\"p\",\"providerMetadata\":true}"
    );
    assert_eq!(
        show(&provider_reply("p", Some((Json::text("s"), Json::Null)), Some(Json::truth(true)))),
        "{\"launched\":true,\"provider\":\"p\",\"agentCoreSessionId\":\"s\",\"agentCoreLiveViewUrl\":null}"
    );
}

#[test]
fn launches_on_devices() {
    let d = |is_real, state: &str| Device {
        name: "iPhone".to_string(),
        udid: "U".to_string(),
        state: state.to_string(),
        is_real,
    };
    assert!(launch_ios(&d(false, "Shutdown")).boot);
    assert!(!launch_ios(&d(false, "Booted")).boot);
    assert!(!launch_ios(&d(true, "Shutdown")).boot);
    let l = launch_ios(&d(true, ""));
    assert_eq!(
        show(&l.reply),
        "{\"launched\":true,\"provider\":\"ios\",\"device\":\"iPhone\",\"udid\":\"U\",\"backend\":\"webdriver\"}"
    );
    assert_eq!(
        names(&l.steps),
        expect(&[
            &["UseWebDriver"],
            &["SetEngine(\"safari\")", "WriteEngineFile", "WriteProviderFile(\"ios\")"],
            &["WriteExtensionsFile", "ResetInput"],
        ])
    );
    let q = device_request(&parse("{\"deviceName\":\"n\",\"platformVersion\":\"17\"}"));
    assert_eq!((q.name.as_deref(), q.udid, q.platform_version.as_deref()), (Some("n"), None, Some("17")));
}

#[test]
fn launches_safari() {
    assert_eq!(safari_port(&parse("{\"port\":65537}")), Some(1));
    assert_eq!(safari_port(&parse("{\"port\":65536}")), None);
    assert_eq!(safari_port(&parse("{\"port\":0}")), None);
    assert_eq!(safari_port(&parse("{}")), None);
    assert_eq!(safari_port(&parse("{\"port\":4444}")), Some(4444));
    let l = launch_safari(4444);
    assert_eq!(show(&l.capabilities), "{\"browserName\":\"safari\"}");
    assert_eq!(
        show(&l.reply),
        "{\"launched\":true,\"provider\":\"safari\",\"port\":4444,\"backend\":\"webdriver\"}"
    );
    assert!(names(&l.steps).contains(&"WriteProviderFile(\"safari\")".to_string()));
    assert_eq!(names(&l.steps)[0], "UseWebDriver");
}

#[test]
fn an_ios_session_with_an_id_takes_commands() {
    let d = ios_driver(Some("S".to_string())).unwrap();
    assert_eq!((d.port, d.id.as_str()), (4723, "S"));
    assert_eq!(ios_driver(None), None);
}

#[test]
fn a_provider_that_cannot_be_reached_leaves_no_session() {
    let after = |automatic, session: Option<&str>, result: Result<(), &str>| {
        let session = session.map(|s| s.to_string());
        after_provider(automatic, "kernel", session, result.map_err(|e| e.to_string()))
    };
    assert_eq!(after(true, Some("s"), Ok(())), AfterProvider::Connected);
    assert_eq!(after(false, None, Ok(())), AfterProvider::Connected);
    assert_eq!(
        after(true, Some("s"), Err("refused")),
        AfterProvider::Close {
            session: "s".to_string(),
            error: "Provider 'kernel' connection failed: refused".to_string(),
        }
    );
    assert_eq!(
        after(false, Some("s"), Err("refused")),
        AfterProvider::Close { session: "s".to_string(), error: "refused".to_string() }
    );
    assert_eq!(
        after(true, None, Err("refused")),
        AfterProvider::Stop("Provider 'kernel' connection failed: refused".to_string())
    );
    assert_eq!(after(false, None, Err("refused")), AfterProvider::Stop("refused".to_string()));
}

#[test]
fn only_a_launch_by_the_environment_is_automatic() {
    let e = env(&[("AGENT_BROWSER_PROVIDER", "kernel")]);
    assert!(auto_launch(&e, None).automatic);
    let cmd = parse("{\"provider\":\"kernel\"}");
    let o = launch_options_from_command(&cmd, &e);
    assert!(!handle_launch(&cmd, &e, &o, false, false, false).automatic);
    assert!(!handle_launch(&cmd, &e, &o, true, false, false).automatic);
}

#[test]
fn an_automatic_connection_opens_a_tab() {
    let steps: Vec<(TabAction, OnFailure)> =
        connect_auto_with_fresh_tab().iter().map(|s| (s.action, s.on_failure)).collect();
    assert_eq!(
        steps,
        vec![
            (TabAction::Connect, OnFailure::Abort),
            (TabAction::OpenTab, OnFailure::Abort),
            (TabAction::FindSession, OnFailure::Abort),
            (TabAction::BringToFront, OnFailure::Ignore),
        ]
    );
}

#[test]
fn small_launch_helpers() {
    assert_eq!(sent(&bring_to_front("s")), "Page.bringToFront - s");
    assert_eq!(restore_name(Some("n")).as_deref(), Some("n"));
    assert_eq!(restore_name(Some("")), None);
    assert_eq!(restore_name(None), None);
    assert_eq!(storage_session(&Browser::Session("s".to_string())).as_deref(), Some("s"));
    assert_eq!(storage_session(&Browser::NotLaunched), None);
    let step = &steps("{}", &env(&[]), false, true, false)[0];
    assert_eq!(step.action, LaunchAction::CloseBrowser);
}
