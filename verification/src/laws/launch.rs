//! Launching a browser or connecting to one.
use vstd::prelude::*;
use vstd::string::*;

use crate::cdp::{Browser, CdpCommand};
use crate::json::{lemma_field_found, opt_string, or_else, Json, JsonV};
use crate::launch::{
    after_provider, after_step, apply_launch_init_scripts, auto_launch, auto_start, auto_steps,
    auto_way, best_effort, bring_to_front, clearing_steps, closing_steps, command_route,
    command_way, connect_auto_with_fresh_tab, connect_mode, connection_steps, credential_steps,
    device_request, device_steps, engine_of, every, filter_steps, handle_launch, has_own_headers,
    interception_steps, ios_driver, keeps, launch_ios, launch_safari, launch_steps,
    law_auto_launch_reaches_one_browser, law_launch_reaches_one_browser,
    law_storage_follows_interception, lemma_every_joined, listening, local_steps, needs_relaunch,
    provider_error, provider_reply, reached_at, restore_name, rollback_error, safari_port,
    scripts_view, steps_view, storage_session, storage_steps, takes_plugins, ActionV, AfterProvider,
    AfterStep, AutoLaunch, ConnectMode, Device, DeviceRequest, DriverSession, InitScript, IosLaunch,
    LaunchPlan, LaunchReply, OldBrowser, OnFailure, Relaunch, Route, RouteV, SafariLaunch, StepV,
    TabStep,
};
use crate::number::decimal;
use crate::options::{env_options, list_items, Environment, LaunchOptions, OptionsV};
use crate::outside::lowercase;
use crate::text::{equal_ignoring_case, texts};

verus! {

/// Some step does the given thing.
pub open spec fn does(steps: Seq<StepV>, a: ActionV) -> bool {
    exists|i: int| 0 <= i < steps.len() && (#[trigger] steps[i]).action == a
}

proof fn lemma_does_joined(a: Seq<StepV>, b: Seq<StepV>, x: ActionV)
    ensures
        does(a + b, x) <==> does(a, x) || does(b, x),
{
    let all = a + b;
    if does(a, x) {
        let i = choose|i: int| 0 <= i < a.len() && (#[trigger] a[i]).action == x;
        assert(all[i].action == x);
    }
    if does(b, x) {
        let i = choose|i: int| 0 <= i < b.len() && (#[trigger] b[i]).action == x;
        assert(all[a.len() + i].action == x);
    }
    if does(all, x) {
        let i = choose|i: int| 0 <= i < all.len() && (#[trigger] all[i]).action == x;
        if i < a.len() {
            assert(a[i].action == x);
        } else {
            assert(b[i - a.len()].action == x);
        }
    }
}

/// What one of the steps that let a browser be listened to does.
pub open spec fn is_listening(x: ActionV) -> bool {
    x is SubscribeToEvents || x is StartFetchHandler || x is StartDialogHandler
        || x is UpdateStreamClient
}

proof fn lemma_listening(x: ActionV)
    ensures
        does(listening(), x) <==> is_listening(x),
{
    let s = listening();
    assert(s[0].action is SubscribeToEvents && s[1].action is StartFetchHandler
        && s[2].action is StartDialogHandler && s[3].action is UpdateStreamClient);
}

proof fn lemma_local(engine: Option<Seq<char>>, x: ActionV)
    ensures
        does(local_steps(engine), x) <==> {
            ||| x == ActionV::SetEngine(or_else(engine, "chrome"@))
            ||| x is WriteEngineFile
            ||| x is WriteExtensionsFileFromOptions
            ||| x is ResetInput
            ||| x == ActionV::LaunchLocal(engine)
            ||| x is RememberLaunchHash
        },
{
    let s = local_steps(engine);
    assert(s[0].action == ActionV::SetEngine(or_else(engine, "chrome"@)));
    assert(s[1].action is WriteEngineFile && s[2].action is WriteExtensionsFileFromOptions
        && s[3].action is ResetInput && s[5].action is RememberLaunchHash);
    assert(s[4].action == ActionV::LaunchLocal(engine));
}

proof fn lemma_storage(path: Option<Seq<char>>, f: OnFailure, x: ActionV)
    ensures
        does(storage_steps(path, f), x) <==> path is Some && x == ActionV::LoadStorageState(
            path->Some_0,
        ),
{
    if let Some(p) = path {
        assert(storage_steps(path, f)[0].action == ActionV::LoadStorageState(p));
    }
}

proof fn lemma_credentials(o: OptionsV, x: ActionV)
    ensures
        does(credential_steps(o), x) <==> o.proxy_username is Some
            && x == ActionV::StoreProxyCredentials(
            o.proxy_username->Some_0,
            or_else(o.proxy_password, Seq::<char>::empty()),
        ),
{
    if let Some(u) = o.proxy_username {
        assert(credential_steps(o)[0].action == ActionV::StoreProxyCredentials(
            u,
            or_else(o.proxy_password, Seq::<char>::empty()),
        ));
    }
}

proof fn lemma_filter(cmd: JsonV, x: ActionV)
    ensures
        does(filter_steps(cmd), x) <==> cmd.str_at("allowedDomains"@) is Some
            && x == ActionV::SetDomainFilter(cmd.str_at("allowedDomains"@)->Some_0),
{
    if let Some(d) = cmd.str_at("allowedDomains"@) {
        assert(filter_steps(cmd)[0].action == ActionV::SetDomainFilter(d));
    }
}

proof fn lemma_interception(filtered: bool, auth: bool, x: ActionV)
    ensures
        does(interception_steps(filtered, auth), x) <==> {
            ||| filtered && x == ActionV::InstallDomainFilter(auth)
            ||| filtered && x is SanitizeOpenPages
            ||| !filtered && auth && x is InstallFetchForProxy
        },
{
    let s = interception_steps(filtered, auth);
    if filtered {
        assert(s[0].action == ActionV::InstallDomainFilter(auth));
        assert(s[1].action is SanitizeOpenPages);
    } else if auth {
        assert(s[0].action is InstallFetchForProxy);
    }
}

proof fn lemma_clearing(has_old: bool, has_cdp: bool, x: ActionV)
    ensures
        does(clearing_steps(has_old, has_cdp), x) <==> {
            ||| has_old && x is CloseBrowser
            ||| x is ClearRefs
            ||| x == ActionV::ValidateOptions(has_cdp)
        },
{
    let s = clearing_steps(has_old, has_cdp);
    if has_old {
        assert(s[0].action is CloseBrowser);
        assert(s[1].action is ClearRefs);
        assert(s[2].action == ActionV::ValidateOptions(has_cdp));
    } else {
        assert(s[0].action is ClearRefs);
        assert(s[1].action == ActionV::ValidateOptions(has_cdp));
    }
}

/// What the steps on each way do, but for those of a local browser.
proof fn lemma_ways(cmd: JsonV, env: Environment, o: OptionsV, filtered: bool, x: ActionV)
    ensures
        match command_way(cmd) {
            RouteV::Cdp(a) => does(connection_steps(cmd, env, o, filtered), x) <==> x is ResetInput
                || x == ActionV::ConnectCdp(a) || is_listening(x),
            RouteV::Auto => does(connection_steps(cmd, env, o, filtered), x) <==> x is ResetInput
                || x is ConnectAuto || is_listening(x),
            RouteV::Ios => does(connection_steps(cmd, env, o, filtered), x) <==> x is LaunchIos,
            RouteV::Safari => does(connection_steps(cmd, env, o, filtered), x)
                <==> x is LaunchSafari,
            RouteV::Provider(p) => does(connection_steps(cmd, env, o, filtered), x)
                <==> x == ActionV::ConnectProvider(p) || x is ResetInput
                || x is RememberProviderSession || is_listening(x)
                || x == ActionV::WriteProviderFile(p),
            RouteV::Local => true,
        },
{
    let all = connection_steps(cmd, env, o, filtered);
    lemma_listening(x);
    match command_way(cmd) {
        RouteV::Cdp(a) => {
            let s = seq![
                StepV { action: ActionV::ResetInput, on_failure: OnFailure::Ignore },
                StepV { action: ActionV::ConnectCdp(a), on_failure: OnFailure::Abort },
            ];
            assert(all == s + listening());
            assert(s[0].action is ResetInput && s[1].action == ActionV::ConnectCdp(a));
            lemma_does_joined(s, listening(), x);
        },
        RouteV::Auto => {
            let s = seq![
                StepV { action: ActionV::ResetInput, on_failure: OnFailure::Ignore },
                StepV { action: ActionV::ConnectAuto, on_failure: OnFailure::Abort },
            ];
            assert(all == s + listening());
            assert(s[0].action is ResetInput && s[1].action is ConnectAuto);
            lemma_does_joined(s, listening(), x);
        },
        RouteV::Ios => {
            assert(all[0].action is LaunchIos);
        },
        RouteV::Safari => {
            assert(all[0].action is LaunchSafari);
        },
        RouteV::Provider(p) => {
            let s = seq![
                StepV { action: ActionV::ConnectProvider(p), on_failure: OnFailure::Abort },
                StepV { action: ActionV::ResetInput, on_failure: OnFailure::Ignore },
                StepV { action: ActionV::RememberProviderSession, on_failure: OnFailure::Ignore },
            ];
            let f = seq![
                StepV { action: ActionV::WriteProviderFile(p), on_failure: OnFailure::Ignore },
            ];
            assert(all == s + listening() + f);
            assert(s[0].action == ActionV::ConnectProvider(p) && s[1].action is ResetInput
                && s[2].action is RememberProviderSession);
            assert(f[0].action == ActionV::WriteProviderFile(p));
            lemma_does_joined(s, listening(), x);
            lemma_does_joined(s + listening(), f, x);
        },
        RouteV::Local => {},
    }
}

proof fn lemma_local_way(cmd: JsonV, env: Environment, o: OptionsV, filtered: bool, x: ActionV)
    requires
        command_way(cmd) is Local,
    ensures
        does(connection_steps(cmd, env, o, filtered), x) <==> {
            ||| does(credential_steps(o), x)
            ||| does(filter_steps(cmd), x)
            ||| does(local_steps(engine_of(cmd, env)), x)
            ||| is_listening(x)
            ||| does(
                interception_steps(
                    filtered || cmd.str_at("allowedDomains"@) is Some,
                    o.proxy_username is Some,
                ),
                x,
            )
        },
{
    let a = credential_steps(o);
    let b = filter_steps(cmd);
    let c = local_steps(engine_of(cmd, env));
    let d = interception_steps(
        filtered || cmd.str_at("allowedDomains"@) is Some,
        o.proxy_username is Some,
    );
    lemma_listening(x);
    lemma_does_joined(a, b, x);
    lemma_does_joined(a + b, c, x);
    lemma_does_joined(a + b + c, listening(), x);
    lemma_does_joined(a + b + c + listening(), d, x);
}

proof fn lemma_plan(
    cmd: JsonV,
    env: Environment,
    o: OptionsV,
    has_old: bool,
    filtered: bool,
    x: ActionV,
)
    ensures
        does(launch_steps(cmd, env, o, false, has_old, filtered), x) <==> {
            ||| has_old && x is CloseBrowser
            ||| x is ClearRefs
            ||| x == ActionV::ValidateOptions(command_way(cmd) is Cdp)
            ||| does(connection_steps(cmd, env, o, filtered), x)
            ||| !(command_way(cmd) is Ios || command_way(cmd) is Safari) && (
            x is ApplyInitScripts || (cmd.str_at("storageState"@) is Some
                && x == ActionV::LoadStorageState(cmd.str_at("storageState"@)->Some_0)))
        },
{
    let a = clearing_steps(has_old, command_way(cmd) is Cdp);
    let b = connection_steps(cmd, env, o, filtered);
    let c = storage_steps(cmd.str_at("storageState"@), OnFailure::RollBack);
    let d = seq![StepV { action: ActionV::ApplyInitScripts, on_failure: OnFailure::Ignore }];
    lemma_clearing(has_old, command_way(cmd) is Cdp, x);
    lemma_storage(cmd.str_at("storageState"@), OnFailure::RollBack, x);
    assert(d[0].action is ApplyInitScripts);
    lemma_does_joined(c, d, x);
    lemma_does_joined(b, c + d, x);
    lemma_does_joined(a, b, x);
    lemma_does_joined(a, b + (c + d), x);
}

/// The command asks for no way to a browser, so that a local one is launched.
pub open spec fn asks_for_local(cmd: JsonV) -> bool {
    &&& cmd.str_at("cdpUrl"@) is None
    &&& cmd.u64_at("cdpPort"@) is None
    &&& cmd.bool_at("autoConnect"@) != Some(true)
    &&& cmd.str_at("provider"@) is None
}

/// The command asks for the provider of the given name and for no way that goes before.
pub open spec fn asks_for_provider(cmd: JsonV, p: Seq<char>) -> bool {
    &&& cmd.str_at("cdpUrl"@) is None
    &&& cmd.u64_at("cdpPort"@) is None
    &&& cmd.bool_at("autoConnect"@) != Some(true)
    &&& cmd.str_at("provider"@) == Some(p)
}

/// A launch goes to the browser that the command asks for: at an address, which goes
/// before a port, and that before a search for a browser, and that before a provider;
/// two providers are devices. Where it asks for none of these, a local one is launched.
pub proof fn law_launch_goes_where_the_command_says(
    cmd: &Json,
    env: &Environment,
    options: &LaunchOptions,
    has_old: bool,
    filtered: bool,
    r: LaunchPlan,
    p: Seq<char>,
)
    requires
        call_ensures(handle_launch, (cmd, env, options, false, has_old, filtered), r),
    ensures
        ({
            let c = cmd.view();
            let s = steps_view(r.steps@);
            &&& c.str_at("cdpUrl"@) matches Some(url) ==> does(s, ActionV::ConnectCdp(url))
            &&& c.str_at("cdpUrl"@) is None ==> (c.u64_at("cdpPort"@) matches Some(port) ==> does(
                s,
                ActionV::ConnectCdp(decimal(port as nat)),
            ))
            &&& c.str_at("cdpUrl"@) is None && c.u64_at("cdpPort"@) is None && c.bool_at(
                "autoConnect"@,
            ) == Some(true) ==> does(s, ActionV::ConnectAuto)
            &&& asks_for_provider(c, p) && lowercase(p) == "ios"@ ==> does(s, ActionV::LaunchIos)
            &&& asks_for_provider(c, p) && lowercase(p) == "safari"@ ==> does(
                s,
                ActionV::LaunchSafari,
            )
            &&& asks_for_provider(c, p) && lowercase(p) != "ios"@ && lowercase(p) != "safari"@
                ==> does(s, ActionV::ConnectProvider(p)) && does(s, ActionV::WriteProviderFile(p))
                && does(s, ActionV::RememberProviderSession)
            &&& asks_for_local(c) ==> exists|e: Option<Seq<char>>| #[trigger]
                does(s, ActionV::LaunchLocal(e))
        }),
{
    let c = cmd.view();
    let o = options.view();
    let s = steps_view(r.steps@);
    if let Some(url) = c.str_at("cdpUrl"@) {
        lemma_ways(c, *env, o, filtered, ActionV::ConnectCdp(url));
        lemma_plan(c, *env, o, has_old, filtered, ActionV::ConnectCdp(url));
    } else if let Some(port) = c.u64_at("cdpPort"@) {
        let x = ActionV::ConnectCdp(decimal(port as nat));
        lemma_ways(c, *env, o, filtered, x);
        lemma_plan(c, *env, o, has_old, filtered, x);
    } else if c.bool_at("autoConnect"@) == Some(true) {
        lemma_ways(c, *env, o, filtered, ActionV::ConnectAuto);
        lemma_plan(c, *env, o, has_old, filtered, ActionV::ConnectAuto);
    } else if c.str_at("provider"@) is Some {
        reveal_strlit("ios");
        reveal_strlit("safari");
        assert("ios"@.len() != "safari"@.len());
        lemma_ways(c, *env, o, filtered, ActionV::LaunchIos);
        lemma_plan(c, *env, o, has_old, filtered, ActionV::LaunchIos);
        lemma_ways(c, *env, o, filtered, ActionV::LaunchSafari);
        lemma_plan(c, *env, o, has_old, filtered, ActionV::LaunchSafari);
        lemma_ways(c, *env, o, filtered, ActionV::ConnectProvider(p));
        lemma_plan(c, *env, o, has_old, filtered, ActionV::ConnectProvider(p));
        lemma_ways(c, *env, o, filtered, ActionV::WriteProviderFile(p));
        lemma_plan(c, *env, o, has_old, filtered, ActionV::WriteProviderFile(p));
        lemma_ways(c, *env, o, filtered, ActionV::RememberProviderSession);
        lemma_plan(c, *env, o, has_old, filtered, ActionV::RememberProviderSession);
    } else {
        let x = ActionV::LaunchLocal(engine_of(c, *env));
        lemma_local(engine_of(c, *env), x);
        lemma_local_way(c, *env, o, filtered, x);
        lemma_plan(c, *env, o, has_old, filtered, x);
        assert(does(s, x));
    }
}

/// The action leads to a browser.
pub open spec fn leads_to_browser(a: ActionV) -> bool {
    a is ConnectCdp || a is ConnectAuto || a is ConnectProvider || a is LaunchIos
        || a is LaunchSafari || a is LaunchLocal
}

/// A launch that does not keep the browser leads to exactly one.
pub proof fn law_launch_leads_to_one_browser(
    cmd: &Json,
    env: &Environment,
    options: &LaunchOptions,
    has_old: bool,
    filtered: bool,
    r: LaunchPlan,
    i: int,
    j: int,
)
    requires
        call_ensures(handle_launch, (cmd, env, options, false, has_old, filtered), r),
        0 <= i < r.steps@.len(),
        0 <= j < r.steps@.len(),
        leads_to_browser(r.steps@[i].action.view()),
    ensures
        r.steps@[i].on_failure == OnFailure::Abort,
        leads_to_browser(r.steps@[j].action.view()) ==> i == j,
        is_listening(r.steps@[j].action.view()) || r.steps@[j].action.view() is LoadStorageState
            || r.steps@[j].action.view() is ApplyInitScripts
            || r.steps@[j].action.view() is RememberLaunchHash
            || r.steps@[j].action.view() is InstallDomainFilter
            || r.steps@[j].action.view() is InstallFetchForProxy
            || r.steps@[j].action.view() is SanitizeOpenPages
            || r.steps@[j].action.view() is RememberProviderSession ==> i < j,
{
    law_launch_reaches_one_browser(cmd.view(), *env, options.view(), has_old, filtered);
    let s = steps_view(r.steps@);
    let c = choose|c: int| #[trigger] reached_at(s, c);
    assert(s[i] == r.steps@[i].view());
    assert(s[j] == r.steps@[j].view());
    assert(crate::launch::connects(s[i].action));
    assert(i == c);
    if leads_to_browser(s[j].action) {
        assert(crate::launch::connects(s[j].action));
    }
    if j < c {
        assert(!crate::launch::uses_browser(s[j].action));
    }
}

/// A local browser is launched with the engine that the command names; only without one
/// does the environment count, and without either it is Chrome. The engine is noted
/// down.
pub proof fn law_local_launch_takes_the_named_engine(
    cmd: &Json,
    env: &Environment,
    options: &LaunchOptions,
    has_old: bool,
    filtered: bool,
    r: LaunchPlan,
)
    requires
        call_ensures(handle_launch, (cmd, env, options, false, has_old, filtered), r),
        asks_for_local(cmd.view()),
    ensures
        ({
            let named = cmd.view().str_at("engine"@);
            let general = env.value("AGENT_BROWSER_ENGINE"@);
            let s = steps_view(r.steps@);
            &&& named matches Some(e) ==> does(s, ActionV::LaunchLocal(Some(e))) && does(
                s,
                ActionV::SetEngine(e),
            )
            &&& named is None ==> (general matches Some(e) ==> does(
                s,
                ActionV::LaunchLocal(Some(e)),
            ) && does(s, ActionV::SetEngine(e)))
            &&& named is None && general is None ==> does(s, ActionV::LaunchLocal(None)) && does(
                s,
                ActionV::SetEngine("chrome"@),
            )
            &&& does(s, ActionV::WriteEngineFile)
            &&& does(s, ActionV::WriteExtensionsFileFromOptions)
            &&& does(s, ActionV::ResetInput)
            &&& does(s, ActionV::RememberLaunchHash)
        }),
{
    let c = cmd.view();
    let o = options.view();
    let named = c.str_at("engine"@);
    let general = env.value("AGENT_BROWSER_ENGINE"@);
    let e = match named {
        Some(_) => named,
        None => general,
    };
    let name = match e {
        Some(n) => n,
        None => "chrome"@,
    };
    lemma_local(engine_of(c, *env), ActionV::LaunchLocal(e));
    lemma_local_way(c, *env, o, filtered, ActionV::LaunchLocal(e));
    lemma_plan(c, *env, o, has_old, filtered, ActionV::LaunchLocal(e));
    lemma_local(engine_of(c, *env), ActionV::SetEngine(name));
    lemma_local_way(c, *env, o, filtered, ActionV::SetEngine(name));
    lemma_plan(c, *env, o, has_old, filtered, ActionV::SetEngine(name));
    lemma_local(engine_of(c, *env), ActionV::WriteEngineFile);
    lemma_local_way(c, *env, o, filtered, ActionV::WriteEngineFile);
    lemma_plan(c, *env, o, has_old, filtered, ActionV::WriteEngineFile);
    lemma_local(engine_of(c, *env), ActionV::WriteExtensionsFileFromOptions);
    lemma_local_way(c, *env, o, filtered, ActionV::WriteExtensionsFileFromOptions);
    lemma_plan(c, *env, o, has_old, filtered, ActionV::WriteExtensionsFileFromOptions);
    lemma_local(engine_of(c, *env), ActionV::ResetInput);
    lemma_local_way(c, *env, o, filtered, ActionV::ResetInput);
    lemma_plan(c, *env, o, has_old, filtered, ActionV::ResetInput);
    lemma_local(engine_of(c, *env), ActionV::RememberLaunchHash);
    lemma_local_way(c, *env, o, filtered, ActionV::RememberLaunchHash);
    lemma_plan(c, *env, o, has_old, filtered, ActionV::RememberLaunchHash);
}

/// The launch of a local browser keeps the credentials for the proxy where there is a
/// user name, with an empty password where there is none, and restricts the domains where
/// the command does; it does neither otherwise.
pub proof fn law_local_launch_sets_proxy_and_domains(
    cmd: &Json,
    env: &Environment,
    options: &LaunchOptions,
    has_old: bool,
    filtered: bool,
    r: LaunchPlan,
    x: ActionV,
)
    requires
        call_ensures(handle_launch, (cmd, env, options, false, has_old, filtered), r),
        asks_for_local(cmd.view()),
    ensures
        ({
            let s = steps_view(r.steps@);
            &&& x is StoreProxyCredentials ==> (does(s, x) <==> (opt_string(
                options.proxy_username,
            ) == Some(x->StoreProxyCredentials_0) && match options.proxy_password {
                Some(p) => p@ == x->StoreProxyCredentials_1,
                None => x->StoreProxyCredentials_1.len() == 0,
            }))
            &&& x is SetDomainFilter ==> (does(s, x) <==> cmd.view().str_at("allowedDomains"@)
                == Some(x->SetDomainFilter_0))
        }),
{
    let c = cmd.view();
    let o = options.view();
    lemma_local(engine_of(c, *env), x);
    lemma_credentials(o, x);
    lemma_filter(c, x);
    lemma_interception(
        filtered || c.str_at("allowedDomains"@) is Some,
        o.proxy_username is Some,
        x,
    );
    lemma_local_way(c, *env, o, filtered, x);
    lemma_plan(c, *env, o, has_old, filtered, x);
    if x is StoreProxyCredentials && x->StoreProxyCredentials_1.len() == 0 {
        assert(x->StoreProxyCredentials_1 == Seq::<char>::empty());
    }
}

/// The launch of a local browser has requests intercepted where the domains are
/// restricted, by the command or from before, or where there are credentials for the
/// proxy, which are then asked for; and not otherwise.
pub proof fn law_local_launch_intercepts_where_needed(
    cmd: &Json,
    env: &Environment,
    options: &LaunchOptions,
    has_old: bool,
    filtered: bool,
    r: LaunchPlan,
    auth: bool,
)
    requires
        call_ensures(handle_launch, (cmd, env, options, false, has_old, filtered), r),
        asks_for_local(cmd.view()),
    ensures
        ({
            let s = steps_view(r.steps@);
            let restricted = filtered || cmd.view().str_at("allowedDomains"@) is Some;
            let proxy = options.proxy_username is Some;
            &&& does(s, ActionV::InstallDomainFilter(auth)) <==> restricted && auth == proxy
            &&& does(s, ActionV::SanitizeOpenPages) <==> restricted
            &&& does(s, ActionV::InstallFetchForProxy) <==> !restricted && proxy
        }),
{
    lemma_local_intercepts(cmd, env, options, has_old, filtered, r, ActionV::InstallDomainFilter(auth));
    lemma_local_intercepts(cmd, env, options, has_old, filtered, r, ActionV::SanitizeOpenPages);
    lemma_local_intercepts(cmd, env, options, has_old, filtered, r, ActionV::InstallFetchForProxy);
}

proof fn lemma_local_intercepts(
    cmd: &Json,
    env: &Environment,
    options: &LaunchOptions,
    has_old: bool,
    filtered: bool,
    r: LaunchPlan,
    x: ActionV,
)
    requires
        call_ensures(handle_launch, (cmd, env, options, false, has_old, filtered), r),
        asks_for_local(cmd.view()),
        x is InstallDomainFilter || x is SanitizeOpenPages || x is InstallFetchForProxy,
    ensures
        does(steps_view(r.steps@), x) <==> does(
            interception_steps(
                filtered || cmd.view().str_at("allowedDomains"@) is Some,
                options.proxy_username is Some,
            ),
            x,
        ),
        does(
            interception_steps(
                filtered || cmd.view().str_at("allowedDomains"@) is Some,
                options.proxy_username is Some,
            ),
            x,
        ) <==> {
            let restricted = filtered || cmd.view().str_at("allowedDomains"@) is Some;
            let proxy = options.proxy_username is Some;
            ||| restricted && x == ActionV::InstallDomainFilter(proxy)
            ||| restricted && x is SanitizeOpenPages
            ||| !restricted && proxy && x is InstallFetchForProxy
        },
{
    let c = cmd.view();
    let o = options.view();
    lemma_local(engine_of(c, *env), x);
    lemma_credentials(o, x);
    lemma_filter(c, x);
    lemma_interception(
        filtered || c.str_at("allowedDomains"@) is Some,
        o.proxy_username is Some,
        x,
    );
    lemma_local_way(c, *env, o, filtered, x);
    lemma_plan(c, *env, o, has_old, filtered, x);
}

/// The command asks for a device.
pub open spec fn asks_for_device(cmd: JsonV) -> bool {
    exists|p: Seq<char>|
        #[trigger] asks_for_provider(cmd, p) && (lowercase(p) == "ios"@ || lowercase(p)
            == "safari"@)
}

/// A launch that does not keep the browser closes the one that is there, drops its
/// element references and checks the options, as those of a browser at an address where
/// it asks for one. The new browser, but for a device, is listened to, gets the storage
/// that the command names and no other, and the init scripts.
pub proof fn law_launch_makes_the_browser_ready(
    cmd: &Json,
    env: &Environment,
    options: &LaunchOptions,
    has_old: bool,
    filtered: bool,
    r: LaunchPlan,
    x: ActionV,
)
    requires
        call_ensures(handle_launch, (cmd, env, options, false, has_old, filtered), r),
    ensures
        ({
            let c = cmd.view();
            let s = steps_view(r.steps@);
            let address = c.str_at("cdpUrl"@) is Some || c.u64_at("cdpPort"@) is Some;
            &&& x is CloseBrowser ==> (does(s, x) <==> has_old)
            &&& x is ClearRefs ==> does(s, x)
            &&& x is ValidateOptions ==> (does(s, x) <==> x->ValidateOptions_0 == address)
            &&& !asks_for_device(c) && is_listening(x) ==> does(s, x)
            &&& !asks_for_device(c) && x is ApplyInitScripts ==> does(s, x)
            &&& !asks_for_device(c) && x is LoadStorageState ==> (does(s, x) <==> c.str_at(
                "storageState"@,
            ) == Some(x->LoadStorageState_0))
        }),
{
    let c = cmd.view();
    let o = options.view();
    lemma_ways(c, *env, o, filtered, x);
    lemma_plan(c, *env, o, has_old, filtered, x);
    if let Some(p) = c.str_at("provider"@) {
        if command_way(c) is Ios || command_way(c) is Safari {
            assert(asks_for_provider(c, p));
        }
    }
    if command_way(c) is Local {
        lemma_local(engine_of(c, *env), x);
        lemma_credentials(o, x);
        lemma_filter(c, x);
        lemma_interception(
            filtered || c.str_at("allowedDomains"@) is Some,
            o.proxy_username is Some,
            x,
        );
        lemma_local_way(c, *env, o, filtered, x);
    }
}

/// A launch that keeps the browser loads the storage that the command names, which ends
/// it where it fails, and does nothing else.
pub proof fn law_kept_browser_only_gets_storage(
    cmd: &Json,
    env: &Environment,
    options: &LaunchOptions,
    has_old: bool,
    filtered: bool,
    r: LaunchPlan,
)
    requires
        call_ensures(handle_launch, (cmd, env, options, true, has_old, filtered), r),
    ensures
        cmd.view().str_at("storageState"@) is None ==> r.steps@.len() == 0,
        cmd.view().str_at("storageState"@) matches Some(p) ==> r.steps@.len() == 1
            && r.steps@[0].action.view() == ActionV::LoadStorageState(p) && r.steps@[0].on_failure
            == OnFailure::Abort,
        r.reply matches LaunchReply::Plain(j) && j.view().bool_at("launched"@) == Some(true)
            && j.view().bool_at("reused"@) == Some(true),
{
    let s = steps_view(r.steps@);
    assert(s.len() == r.steps@.len());
    if s.len() > 0 {
        assert(s[0] == r.steps@[0].view());
    }
    lemma_launched_fields(true);
}

proof fn lemma_launched_fields(kept: bool)
    ensures
        crate::launch::launched(kept).bool_at("launched"@) == Some(true),
        crate::launch::launched(kept).bool_at("reused"@) == (if kept {
            Some(true)
        } else {
            None
        }),
{
    reveal_strlit("launched");
    reveal_strlit("reused");
    assert("launched"@.len() == 8 && "reused"@.len() == 6);
    let f = crate::launch::launched(kept)->Object_0;
    lemma_field_found(f, "launched"@, 0);
    lemma_field_found(f, "reused"@, 1);
}

/// A new browser is answered with what its provider tells, where it has one, with what
/// the device gives, or that it was launched.
pub proof fn law_launch_answers_for_its_way(
    cmd: &Json,
    env: &Environment,
    options: &LaunchOptions,
    has_old: bool,
    filtered: bool,
    r: LaunchPlan,
    p: Seq<char>,
)
    requires
        call_ensures(handle_launch, (cmd, env, options, false, has_old, filtered), r),
    ensures
        asks_for_provider(cmd.view(), p) && lowercase(p) != "ios"@ && lowercase(p) != "safari"@
            ==> (r.reply matches LaunchReply::OfProvider(n) && n@ == p),
        asks_for_provider(cmd.view(), p) && (lowercase(p) == "ios"@ || lowercase(p) == "safari"@)
            ==> r.reply is OfDevice,
        cmd.view().str_at("cdpUrl"@) is Some || cmd.view().u64_at("cdpPort"@) is Some
            || cmd.view().bool_at("autoConnect"@) == Some(true) || asks_for_local(cmd.view()) ==> (
        r.reply matches LaunchReply::Plain(j) && j.view().bool_at("launched"@) == Some(true)
            && j.view().get("reused"@) is None),
{
    lemma_launched_fields(false);
    reveal_strlit("launched");
    reveal_strlit("reused");
    assert("launched"@.len() == 8 && "reused"@.len() == 6);
    lemma_field_found(crate::launch::launched(false)->Object_0, "reused"@, 1);
}

/// The route of a command is the way that its launch takes, and plugins add to that of a
/// local browser only.
pub proof fn law_route_is_the_way_of_the_launch(cmd: &Json, r: Route, plugins: bool, p: Seq<char>)
    requires
        call_ensures(command_route, (cmd,), r),
        call_ensures(takes_plugins, (&r,), plugins),
    ensures
        cmd.view().str_at("cdpUrl"@) matches Some(url) ==> (r matches Route::Cdp(a) && a@ == url),
        cmd.view().str_at("cdpUrl"@) is None ==> (cmd.view().u64_at("cdpPort"@) matches Some(port)
            ==> (r matches Route::Cdp(a) && a@ == decimal(port as nat))),
        cmd.view().str_at("cdpUrl"@) is None && cmd.view().u64_at("cdpPort"@) is None
            && cmd.view().bool_at("autoConnect"@) == Some(true) ==> r is Auto,
        asks_for_provider(cmd.view(), p) && lowercase(p) == "ios"@ ==> r is Ios,
        asks_for_provider(cmd.view(), p) && lowercase(p) == "safari"@ ==> r is Safari,
        asks_for_provider(cmd.view(), p) && lowercase(p) != "ios"@ && lowercase(p) != "safari"@
            ==> (r matches Route::Provider(n) && n@ == p),
        asks_for_local(cmd.view()) ==> r is Local,
        plugins <==> asks_for_local(cmd.view()),
{
    reveal_strlit("ios");
    reveal_strlit("safari");
    assert("ios"@.len() != "safari"@.len());
}

/// A browser is kept exactly where it is alive, has not ended, was reached in the same
/// way, by connection or by launch, and, where it was launched, with the same options and
/// without storage to load.
pub proof fn law_browser_is_kept_where_nothing_speaks_against_it(
    old: &Option<OldBrowser>,
    route: &Route,
    new_hash: u64,
    has_storage_state: bool,
    relaunch: Relaunch,
    alive: bool,
    keep: bool,
)
    requires
        call_ensures(needs_relaunch, (old, route, new_hash, has_storage_state), relaunch),
        call_ensures(keeps, (relaunch, alive), keep),
    ensures
        keep ==> *old is Some && alive,
        *old matches Some(b) ==> {
            let external = route is Cdp || route is Auto;
            keep <==> alive && !b.process_exited && b.is_external == external && (external || (
            b.launch_hash == Some(new_hash) && !has_storage_state))
        },
{
}

/// A launch without a command goes where the environment says: to an address, which goes
/// before a search for a browser, and that before a provider, which is none of the two
/// devices; or else a local browser is launched, with the engine that it names.
pub proof fn law_auto_launch_goes_where_the_environment_says(
    env: &Environment,
    viewport: Option<(u32, u32)>,
    r: AutoLaunch,
)
    requires
        call_ensures(auto_launch, (env, viewport), r),
    ensures
        ({
            let s = steps_view(r.steps@);
            let address = env.value("AGENT_BROWSER_CDP"@);
            let search = env.value("AGENT_BROWSER_AUTO_CONNECT"@);
            let provider = env.value("AGENT_BROWSER_PROVIDER"@);
            let engine = env.value("AGENT_BROWSER_ENGINE"@);
            let other = provider is None || lowercase(provider->Some_0).len() == 0 || lowercase(
                provider->Some_0,
            ) == "ios"@ || lowercase(provider->Some_0) == "safari"@;
            &&& address matches Some(a) ==> does(s, ActionV::ConnectCdp(a))
            &&& address is None && search is Some ==> does(s, ActionV::ConnectAuto)
            &&& address is None && search is None && !other ==> does(
                s,
                ActionV::ConnectProvider(lowercase(provider->Some_0)),
            ) && does(s, ActionV::WriteProviderFile(lowercase(provider->Some_0))) && does(
                s,
                ActionV::RememberProviderSession,
            )
            &&& address is None && search is None && other ==> does(
                s,
                ActionV::LaunchLocal(engine),
            ) && does(s, ActionV::ApplyMutators) && does(s, ActionV::RememberLaunchHash) && does(
                s,
                ActionV::WriteExtensionsFileFromOptions,
            )
            &&& engine matches Some(e) ==> does(s, ActionV::SetEngine(e))
            &&& engine is None ==> does(s, ActionV::SetEngine("chrome"@))
            &&& r.options.viewport_size == viewport
        }),
{
    let s = steps_view(r.steps@);
    let e = env.value("AGENT_BROWSER_ENGINE"@);
    lemma_auto_way(*env);
    lemma_auto_start(
        *env,
        ActionV::SetEngine(
            match e {
                Some(e) => e,
                None => "chrome"@,
            },
        ),
    );
}

proof fn lemma_auto_start(env: Environment, x: ActionV)
    ensures
        does(auto_start(env), x) ==> does(auto_steps(env), x),
        does(best_effort(env_options(env).storage_state), x) ==> does(auto_steps(env), x),
        is_listening(x) ==> does(auto_steps(env), x),
        x == ActionV::SetEngine(or_else(env.value("AGENT_BROWSER_ENGINE"@), "chrome"@)) ==> does(
            auto_steps(env),
            x,
        ),
        x is WriteEngineFile || x is WriteExtensionsFile ==> does(auto_steps(env), x),
{
    let start = auto_start(env);
    let o = env_options(env);
    let end = best_effort(o.storage_state);
    let three = seq![
        StepV {
            action: ActionV::SetEngine(
                or_else(env.value("AGENT_BROWSER_ENGINE"@), "chrome"@),
            ),
            on_failure: OnFailure::Ignore,
        },
        StepV { action: ActionV::WriteEngineFile, on_failure: OnFailure::Ignore },
        StepV { action: ActionV::WriteExtensionsFile, on_failure: OnFailure::Ignore },
    ];
    assert(three[0].action == ActionV::SetEngine(
        or_else(env.value("AGENT_BROWSER_ENGINE"@), "chrome"@),
    ));
    assert(three[1].action is WriteEngineFile && three[2].action is WriteExtensionsFile);
    lemma_does_joined(credential_steps(o), three, x);
    lemma_listening(x);
    match auto_way(env) {
        RouteV::Cdp(a) => {
            let m = seq![
                StepV { action: ActionV::ConnectCdp(a), on_failure: OnFailure::Abort },
                StepV { action: ActionV::ResetInput, on_failure: OnFailure::Ignore },
            ];
            lemma_does_joined(start, m, x);
            lemma_does_joined(start + m, listening(), x);
            lemma_does_joined(start + m + listening(), end, x);
        },
        RouteV::Auto => {
            let m = seq![
                StepV { action: ActionV::ResetInput, on_failure: OnFailure::Ignore },
                StepV { action: ActionV::ConnectAuto, on_failure: OnFailure::Abort },
            ];
            lemma_does_joined(start, m, x);
            lemma_does_joined(start + m, listening(), x);
            lemma_does_joined(start + m + listening(), end, x);
        },
        RouteV::Provider(p) => {
            let m = seq![
                StepV { action: ActionV::ConnectProvider(p), on_failure: OnFailure::Abort },
                StepV { action: ActionV::ResetInput, on_failure: OnFailure::Ignore },
                StepV { action: ActionV::RememberProviderSession, on_failure: OnFailure::Ignore },
            ];
            let f = seq![
                StepV { action: ActionV::WriteProviderFile(p), on_failure: OnFailure::Ignore },
            ];
            lemma_does_joined(start, m, x);
            lemma_does_joined(start + m, listening(), x);
            lemma_does_joined(start + m + listening(), f, x);
            lemma_does_joined(start + m + listening() + f, end, x);
        },
        _ => {
            let m = seq![
                StepV { action: ActionV::ApplyMutators, on_failure: OnFailure::Abort },
                StepV {
                    action: ActionV::WriteExtensionsFileFromOptions,
                    on_failure: OnFailure::Ignore,
                },
                StepV {
                    action: ActionV::LaunchLocal(env.value("AGENT_BROWSER_ENGINE"@)),
                    on_failure: OnFailure::Abort,
                },
                StepV { action: ActionV::ResetInput, on_failure: OnFailure::Ignore },
                StepV { action: ActionV::RememberLaunchHash, on_failure: OnFailure::Ignore },
            ];
            let d = interception_steps(false, o.proxy_username is Some);
            lemma_does_joined(start, m, x);
            lemma_does_joined(start + m, listening(), x);
            lemma_does_joined(start + m + listening(), d, x);
            lemma_does_joined(start + m + listening() + d, end, x);
        },
    }
}

proof fn lemma_auto_way(env: Environment)
    ensures
        match auto_way(env) {
            RouteV::Cdp(a) => does(auto_steps(env), ActionV::ConnectCdp(a)),
            RouteV::Auto => does(auto_steps(env), ActionV::ConnectAuto),
            RouteV::Provider(p) => does(auto_steps(env), ActionV::ConnectProvider(p)) && does(
                auto_steps(env),
                ActionV::RememberProviderSession,
            ) && does(auto_steps(env), ActionV::WriteProviderFile(p)),
            _ => does(
                auto_steps(env),
                ActionV::LaunchLocal(env.value("AGENT_BROWSER_ENGINE"@)),
            ) && does(auto_steps(env), ActionV::ApplyMutators) && does(
                auto_steps(env),
                ActionV::RememberLaunchHash,
            ) && does(auto_steps(env), ActionV::WriteExtensionsFileFromOptions) && (
            env_options(env).proxy_username is Some ==> does(
                auto_steps(env),
                ActionV::InstallFetchForProxy,
            )),
        },
{
    let s = auto_steps(env);
    let n = auto_start(env).len() as int;
    match auto_way(env) {
        RouteV::Cdp(a) => {
            assert(s[n].action == ActionV::ConnectCdp(a));
        },
        RouteV::Auto => {
            assert(s[n + 1].action == ActionV::ConnectAuto);
        },
        RouteV::Provider(p) => {
            assert(s[n].action == ActionV::ConnectProvider(p));
            assert(s[n + 2].action == ActionV::RememberProviderSession);
            assert(s[n + 7].action == ActionV::WriteProviderFile(p));
        },
        _ => {
            assert(s[n].action == ActionV::ApplyMutators);
            assert(s[n + 1].action == ActionV::WriteExtensionsFileFromOptions);
            assert(s[n + 2].action == ActionV::LaunchLocal(env.value("AGENT_BROWSER_ENGINE"@)));
            assert(s[n + 4].action == ActionV::RememberLaunchHash);
            if env_options(env).proxy_username is Some {
                assert(s[n + 9].action == ActionV::InstallFetchForProxy);
            }
        },
    }
}

/// A launch without a command makes the browser ready: it keeps the credentials for the
/// proxy that the environment gives, notes the engine down, listens to the browser,
/// applies the init scripts, restores the session and loads the storage that the
/// environment names.
pub proof fn law_auto_launch_makes_the_browser_ready(
    env: &Environment,
    viewport: Option<(u32, u32)>,
    r: AutoLaunch,
    x: ActionV,
)
    requires
        call_ensures(auto_launch, (env, viewport), r),
    ensures
        ({
            let s = steps_view(r.steps@);
            let user = env.value("AGENT_BROWSER_PROXY_USERNAME"@);
            let password = env.value("AGENT_BROWSER_PROXY_PASSWORD"@);
            &&& is_listening(x) ==> does(s, x)
            &&& x is ApplyInitScripts || x is RestoreSession || x is WriteEngineFile
                || x is WriteExtensionsFile ==> does(s, x)
            &&& x is LoadStorageState && env.value("AGENT_BROWSER_STATE"@) == Some(
                x->LoadStorageState_0,
            ) ==> does(s, x)
            &&& x is StoreProxyCredentials && user == Some(x->StoreProxyCredentials_0) && (
            password == Some(x->StoreProxyCredentials_1) || (password is None
                && x->StoreProxyCredentials_1.len() == 0)) ==> does(s, x)
            &&& r.automatic
        }),
{
    let o = env_options(*env);
    lemma_auto_start(*env, x);
    lemma_storage(o.storage_state, OnFailure::Ignore, x);
    lemma_credentials(o, x);
    let two = seq![
        StepV { action: ActionV::ApplyInitScripts, on_failure: OnFailure::Ignore },
        StepV { action: ActionV::RestoreSession, on_failure: OnFailure::Ignore },
    ];
    assert(two[0].action is ApplyInitScripts && two[1].action is RestoreSession);
    lemma_does_joined(two, storage_steps(o.storage_state, OnFailure::Ignore), x);
    let three = auto_start(*env).skip(credential_steps(o).len() as int);
    assert(auto_start(*env) == credential_steps(o) + three);
    lemma_does_joined(credential_steps(o), three, x);
    if x is StoreProxyCredentials && x->StoreProxyCredentials_1.len() == 0 {
        assert(x->StoreProxyCredentials_1 == Seq::<char>::empty());
    }
}

/// A local browser that is launched without a command has requests intercepted where the
/// environment gives a user name for the proxy.
pub proof fn law_auto_launch_answers_the_proxy(
    env: &Environment,
    viewport: Option<(u32, u32)>,
    r: AutoLaunch,
)
    requires
        call_ensures(auto_launch, (env, viewport), r),
        env.value("AGENT_BROWSER_CDP"@) is None,
        env.value("AGENT_BROWSER_AUTO_CONNECT"@) is None,
        env.value("AGENT_BROWSER_PROVIDER"@) is None,
        env.value("AGENT_BROWSER_PROXY_USERNAME"@) is Some,
    ensures
        does(steps_view(r.steps@), ActionV::InstallFetchForProxy),
{
    lemma_auto_way(*env);
}

/// A step that succeeds is followed by the next; one that fails ends the launch with its
/// error, unless its failure does not matter.
pub proof fn law_failed_step_ends_the_launch(
    on_failure: OnFailure,
    result: Result<(), String>,
    r: AfterStep,
)
    requires
        call_ensures(after_step, (on_failure, result), r),
    ensures
        result is Ok || on_failure == OnFailure::Ignore <==> r is Next,
        result matches Err(e) ==> {
            &&& on_failure == OnFailure::Abort ==> (r matches AfterStep::Stop(m) && m@ == e@)
            &&& on_failure == OnFailure::RollBack ==> (r matches AfterStep::RollBack(m) && m@
                == e@)
        },
{
}

/// A launch that was undone is answered with its error, and with that of undoing it where
/// that has failed, too.
pub proof fn law_undone_launch_keeps_its_error(
    error: String,
    closed: Result<(), String>,
    r: String,
)
    requires
        call_ensures(rollback_error, (error, closed), r),
    ensures
        error@.is_prefix_of(r@),
        closed is Ok ==> r@ == error@,
        closed matches Err(c) ==> r@ == error@
            + " (also failed to roll back browser after launch: "@ + c@ + ")"@,
{
}

/// A provider whose browser cannot be reached has its session closed; the error names the
/// provider where the launch came without a command, and is passed on as it is otherwise.
pub proof fn law_unreached_provider_is_closed(
    automatic: bool,
    provider: &str,
    session: Option<String>,
    result: Result<(), String>,
    r: AfterProvider,
)
    requires
        call_ensures(after_provider, (automatic, provider, session, result), r),
    ensures
        result is Ok <==> r is Connected,
        result is Err ==> (session is Some <==> r is Close),
        r matches AfterProvider::Close { session: s, error } ==> session is Some && s@
            == session->Some_0@ && error@ == (if automatic {
            "Provider '"@ + provider@ + "' connection failed: "@ + result->Err_0@
        } else {
            result->Err_0@
        }),
        r matches AfterProvider::Stop(error) ==> session is None && error@ == (if automatic {
            "Provider '"@ + provider@ + "' connection failed: "@ + result->Err_0@
        } else {
            result->Err_0@
        }),
{
}

/// An automatic connection connects, opens a tab, finds its session and brings it to the
/// front, in this order, and only the last may fail.
pub proof fn law_automatic_connection_opens_a_tab(r: Vec<TabStep>)
    requires
        call_ensures(connect_auto_with_fresh_tab, (), r),
    ensures
        r@.len() == 4,
        r@[0].action is Connect && r@[0].on_failure == OnFailure::Abort,
        r@[1].action is OpenTab && r@[1].on_failure == OnFailure::Abort,
        r@[2].action is FindSession && r@[2].on_failure == OnFailure::Abort,
        r@[3].action is BringToFront && r@[3].on_failure == OnFailure::Ignore,
{
}

/// The init scripts are one for each feature that the environment enables, then one for
/// each file that it names, then those of the plugins, each in their order.
pub proof fn law_init_scripts_come_in_order(
    env: &Environment,
    plugin_scripts: &Vec<String>,
    r: Vec<InitScript>,
    features: Seq<Seq<char>>,
    files: Seq<Seq<char>>,
    i: int,
)
    requires
        call_ensures(apply_launch_init_scripts, (env, plugin_scripts), r),
        match env.value("AGENT_BROWSER_ENABLE"@) {
            Some(v) => features == list_items(v),
            None => features.len() == 0,
        },
        match env.value("AGENT_BROWSER_INIT_SCRIPTS"@) {
            Some(v) => files == list_items(v),
            None => files.len() == 0,
        },
        0 <= i < r@.len(),
    ensures
        r@.len() == features.len() + files.len() + plugin_scripts@.len(),
        i < features.len() ==> {
            &&& features[i] == "react-devtools"@ || features[i] == "react"@ ==> r@[i] is ReactHook
            &&& features[i] != "react-devtools"@ && features[i] != "react"@ ==> (
            r@[i] matches InitScript::Unknown(w) && w@ == "warning: unknown --enable feature '"@
                + features[i] + "'"@)
        },
        features.len() <= i < features.len() + files.len() ==> (r@[i] matches InitScript::File(p)
            && p@ == files[i - features.len()]),
        features.len() + files.len() <= i ==> (r@[i] matches InitScript::Source(t) && t@
            == plugin_scripts@[i - features.len() - files.len()]@),
{
    let v = scripts_view(r@);
    assert(v.len() == r@.len());
    assert(v[i] == r@[i].view());
    assert(crate::launch::env_items(*env, "AGENT_BROWSER_ENABLE"@) == features);
    assert(crate::launch::env_items(*env, "AGENT_BROWSER_INIT_SCRIPTS"@) == files);
    assert(texts(plugin_scripts@).len() == plugin_scripts@.len());
}

/// The browser of a provider is reached at its page where it has one, else with headers
/// where there are some, else plainly; only AgentCore, in any case, hands out headers.
pub proof fn law_provider_is_reached(
    direct_page: bool,
    has_headers: bool,
    provider: &str,
    mode: ConnectMode,
    headers: bool,
)
    requires
        call_ensures(connect_mode, (direct_page, has_headers), mode),
        call_ensures(has_own_headers, (provider,), headers),
    ensures
        mode is Direct <==> direct_page,
        mode is WithHeaders <==> !direct_page && has_headers,
        headers <==> equal_ignoring_case(provider@, "agentcore"@),
{
}

/// The answer to a launch by a provider names it, with the session and the live view of
/// an AgentCore browser where there is one, or else with what the provider tells.
pub proof fn law_provider_is_named_in_the_answer(
    provider: &str,
    agentcore: Option<(Json, Json)>,
    metadata: Option<Json>,
    r: Json,
)
    requires
        call_ensures(provider_reply, (provider, agentcore, metadata), r),
    ensures
        r.view().bool_at("launched"@) == Some(true),
        r.view().str_at("provider"@) == Some(provider@),
        agentcore matches Some((session, view)) ==> r.view().get("agentCoreSessionId"@) == Some(
            session.view(),
        ) && r.view().get("agentCoreLiveViewUrl"@) == Some(view.view()),
        agentcore is None ==> r.view().get("providerMetadata"@) == (match metadata {
            Some(m) => Some(m.view()),
            None => None,
        }),
{
    lemma_provider_keys();
    let f = r.view()->Object_0;
    lemma_field_found(f, "launched"@, 0);
    lemma_field_found(f, "provider"@, 1);
    if agentcore is Some {
        lemma_field_found(f, "agentCoreSessionId"@, 2);
        lemma_field_found(f, "agentCoreLiveViewUrl"@, 3);
    } else {
        lemma_field_found(f, "providerMetadata"@, 2);
    }
}

proof fn lemma_provider_keys()
    ensures
        "launched"@ != "provider"@,
        "launched"@ != "agentCoreSessionId"@,
        "launched"@ != "agentCoreLiveViewUrl"@,
        "launched"@ != "providerMetadata"@,
        "provider"@ != "agentCoreSessionId"@,
        "provider"@ != "agentCoreLiveViewUrl"@,
        "provider"@ != "providerMetadata"@,
        "agentCoreSessionId"@ != "agentCoreLiveViewUrl"@,
{
    reveal_strlit("launched");
    reveal_strlit("provider");
    reveal_strlit("agentCoreSessionId");
    reveal_strlit("agentCoreLiveViewUrl");
    reveal_strlit("providerMetadata");
    assert("launched"@[0] != "provider"@[0]);
    assert("launched"@.len() == 8 && "provider"@.len() == 8 && "agentCoreSessionId"@.len() == 18
        && "agentCoreLiveViewUrl"@.len() == 20 && "providerMetadata"@.len() == 16);
}

/// A simulator that does not run is booted, and nothing else is; the commands then go to
/// the device's WebDriver, under the engine Safari and the provider `ios`, and the answer
/// names the device.
pub proof fn law_device_is_booted_and_used(device: &Device, r: IosLaunch, x: ActionV)
    requires
        call_ensures(launch_ios, (device,), r),
    ensures
        r.boot <==> !device.is_real && device.state@ != "Booted"@,
        does(steps_view(r.steps@), x) <==> {
            ||| x is UseWebDriver
            ||| x == ActionV::SetEngine("safari"@)
            ||| x is WriteEngineFile
            ||| x == ActionV::WriteProviderFile("ios"@)
            ||| x is WriteExtensionsFile
            ||| x is ResetInput
        },
        r.reply.view().bool_at("launched"@) == Some(true),
        r.reply.view().str_at("provider"@) == Some("ios"@),
        r.reply.view().str_at("device"@) == Some(device.name@),
        r.reply.view().str_at("udid"@) == Some(device.udid@),
        r.reply.view().str_at("backend"@) == Some("webdriver"@),
{
    lemma_device("ios"@, x);
    lemma_device_keys();
    let f = r.reply.view()->Object_0;
    lemma_field_found(f, "launched"@, 0);
    lemma_field_found(f, "provider"@, 1);
    lemma_field_found(f, "device"@, 2);
    lemma_field_found(f, "udid"@, 3);
    lemma_field_found(f, "backend"@, 4);
}

proof fn lemma_device(provider: Seq<char>, x: ActionV)
    ensures
        does(device_steps(provider), x) <==> {
            ||| x is UseWebDriver
            ||| x == ActionV::SetEngine("safari"@)
            ||| x is WriteEngineFile
            ||| x == ActionV::WriteProviderFile(provider)
            ||| x is WriteExtensionsFile
            ||| x is ResetInput
        },
{
    let s = device_steps(provider);
    assert(s[0].action is UseWebDriver && s[1].action == ActionV::SetEngine("safari"@)
        && s[2].action is WriteEngineFile && s[3].action == ActionV::WriteProviderFile(provider)
        && s[4].action is WriteExtensionsFile && s[5].action is ResetInput);
}

proof fn lemma_device_keys()
    ensures
        "launched"@ != "provider"@,
        "launched"@ != "device"@,
        "launched"@ != "udid"@,
        "launched"@ != "backend"@,
        "launched"@ != "port"@,
        "provider"@ != "device"@,
        "provider"@ != "udid"@,
        "provider"@ != "backend"@,
        "provider"@ != "port"@,
        "device"@ != "udid"@,
        "device"@ != "backend"@,
        "udid"@ != "backend"@,
        "port"@ != "backend"@,
{
    reveal_strlit("launched");
    reveal_strlit("provider");
    reveal_strlit("device");
    reveal_strlit("udid");
    reveal_strlit("backend");
    reveal_strlit("port");
    assert("launched"@[0] != "provider"@[0]);
    assert("launched"@.len() == 8 && "provider"@.len() == 8 && "device"@.len() == 6
        && "udid"@.len() == 4 && "backend"@.len() == 7 && "port"@.len() == 4);
}

/// Safari is driven at the port that the command asks for, modulo 65536, or at any where
/// that is zero; it is asked for by name, and the answer names the port.
pub proof fn law_safari_is_driven_at_its_port(
    cmd: &Json,
    asked: Option<u16>,
    port: u16,
    r: SafariLaunch,
    x: ActionV,
)
    requires
        call_ensures(safari_port, (cmd,), asked),
        call_ensures(launch_safari, (port,), r),
    ensures
        cmd.view().u64_at("port"@) is None ==> asked is None,
        cmd.view().u64_at("port"@) matches Some(n) ==> match asked {
            Some(a) => a as int == n as int % 65536 && a > 0,
            None => n as int % 65536 == 0,
        },
        r.capabilities.view().str_at("browserName"@) == Some("safari"@),
        r.reply.view().bool_at("launched"@) == Some(true),
        r.reply.view().str_at("provider"@) == Some("safari"@),
        r.reply.view().u64_at("port"@) == Some(port as u64),
        r.reply.view().str_at("backend"@) == Some("webdriver"@),
        does(steps_view(r.steps@), x) <==> {
            ||| x is UseWebDriver
            ||| x == ActionV::SetEngine("safari"@)
            ||| x is WriteEngineFile
            ||| x == ActionV::WriteProviderFile("safari"@)
            ||| x is WriteExtensionsFile
            ||| x is ResetInput
        },
{
    lemma_device("safari"@, x);
    lemma_device_keys();
    lemma_field_found(r.capabilities.view()->Object_0, "browserName"@, 0);
    let f = r.reply.view()->Object_0;
    lemma_field_found(f, "launched"@, 0);
    lemma_field_found(f, "provider"@, 1);
    lemma_field_found(f, "port"@, 2);
    lemma_field_found(f, "backend"@, 3);
}

/// Storage is loaded into the active session, and the state of a session with a name is
/// restored.
pub proof fn law_storage_goes_to_the_active_session(
    browser: &Browser,
    session: Option<String>,
    name: Option<&str>,
    restored: Option<String>,
)
    requires
        call_ensures(storage_session, (browser,), session),
        call_ensures(restore_name, (name,), restored),
    ensures
        session is Some <==> browser is Session,
        session matches Some(s) ==> s@ == browser->Session_0@,
        restored is Some <==> name is Some && name->Some_0@.len() > 0,
        restored matches Some(n) ==> n@ == name->Some_0@,
{
}

/// What becomes of a launch by command whose step has failed: it ends where it cannot
/// close the old browser, finds the options wanting or does not reach the new one; it is
/// undone where the storage cannot be loaded; anything else does not matter.
pub open spec fn by_command(s: StepV) -> bool {
    s.on_failure == if leads_to_browser(s.action) || s.action is CloseBrowser
        || s.action is ValidateOptions {
        OnFailure::Abort
    } else if s.action is LoadStorageState {
        OnFailure::RollBack
    } else {
        OnFailure::Ignore
    }
}

/// What becomes of a launch without a command whose step has failed: it ends where the
/// plugins fail or it does not reach the browser; anything else does not matter.
pub open spec fn by_itself(s: StepV) -> bool {
    s.on_failure == if leads_to_browser(s.action) || s.action is ApplyMutators {
        OnFailure::Abort
    } else {
        OnFailure::Ignore
    }
}

spec fn command_rule() -> spec_fn(StepV) -> bool {
    |s: StepV| by_command(s)
}

spec fn own_rule() -> spec_fn(StepV) -> bool {
    |s: StepV| by_itself(s)
}

/// A launch by command that does not keep the browser fails where it has to, and only
/// there.
pub proof fn law_launch_fails_where_it_has_to(
    cmd: &Json,
    env: &Environment,
    options: &LaunchOptions,
    has_old: bool,
    filtered: bool,
    r: LaunchPlan,
    i: int,
)
    requires
        call_ensures(handle_launch, (cmd, env, options, false, has_old, filtered), r),
        0 <= i < r.steps@.len(),
    ensures
        by_command(r.steps@[i].view()),
{
    let c = cmd.view();
    let o = options.view();
    let p = command_rule();
    let s = steps_view(r.steps@);
    let a = clearing_steps(has_old, command_way(c) is Cdp);
    let b = connection_steps(c, *env, o, filtered);
    let d = storage_steps(c.str_at("storageState"@), OnFailure::RollBack);
    let e = seq![StepV { action: ActionV::ApplyInitScripts, on_failure: OnFailure::Ignore }];
    assert(every(a, p));
    assert(every(d, p));
    assert(every(e, p));
    lemma_every_joined(d, e, p);
    lemma_connection_rule(c, *env, o, filtered);
    lemma_every_joined(b, d + e, p);
    lemma_every_joined(a, b, p);
    lemma_every_joined(a, b + (d + e), p);
    assert(every(s, p));
    assert(p(s[i]));
    assert(s[i] == r.steps@[i].view());
}

proof fn lemma_connection_rule(cmd: JsonV, env: Environment, o: OptionsV, filtered: bool)
    ensures
        every(connection_steps(cmd, env, o, filtered), command_rule()),
{
    let p = command_rule();
    assert(every(listening(), p));
    match command_way(cmd) {
        RouteV::Cdp(x) => {
            let s = connection_steps(cmd, env, o, filtered).take(2);
            assert(connection_steps(cmd, env, o, filtered) == s + listening());
            assert(every(s, p));
            lemma_every_joined(s, listening(), p);
        },
        RouteV::Auto => {
            let s = connection_steps(cmd, env, o, filtered).take(2);
            assert(connection_steps(cmd, env, o, filtered) == s + listening());
            assert(every(s, p));
            lemma_every_joined(s, listening(), p);
        },
        RouteV::Provider(x) => {
            let all = connection_steps(cmd, env, o, filtered);
            let s = all.take(3);
            let f = all.skip(7);
            assert(all == s + listening() + f);
            assert(every(s, p));
            assert(every(f, p));
            lemma_every_joined(s, listening(), p);
            lemma_every_joined(s + listening(), f, p);
        },
        RouteV::Local => {
            let a = credential_steps(o);
            let b = filter_steps(cmd);
            let c = local_steps(engine_of(cmd, env));
            let d = interception_steps(
                filtered || cmd.str_at("allowedDomains"@) is Some,
                o.proxy_username is Some,
            );
            assert(every(a, p));
            assert(every(b, p));
            assert(every(c, p));
            assert(every(d, p));
            lemma_every_joined(a, b, p);
            lemma_every_joined(a + b, c, p);
            lemma_every_joined(a + b + c, listening(), p);
            lemma_every_joined(a + b + c + listening(), d, p);
        },
        _ => {
            assert(every(connection_steps(cmd, env, o, filtered), p));
        },
    }
}

/// A launch without a command fails where it has to, and only there.
pub proof fn law_auto_launch_fails_where_it_has_to(
    env: &Environment,
    viewport: Option<(u32, u32)>,
    r: AutoLaunch,
    i: int,
)
    requires
        call_ensures(auto_launch, (env, viewport), r),
        0 <= i < r.steps@.len(),
    ensures
        by_itself(r.steps@[i].view()),
{
    let p = own_rule();
    let s = steps_view(r.steps@);
    let o = env_options(*env);
    let start = auto_start(*env);
    let end = best_effort(o.storage_state);
    assert(every(start, p));
    assert(every(end, p));
    assert(every(listening(), p));
    let n = start.len() as int;
    match auto_way(*env) {
        RouteV::Cdp(x) => {
            let m = s.subrange(n, n + 2);
            assert(s == start + m + listening() + end);
            assert(every(m, p));
            lemma_every_joined(start, m, p);
            lemma_every_joined(start + m, listening(), p);
            lemma_every_joined(start + m + listening(), end, p);
        },
        RouteV::Auto => {
            let m = s.subrange(n, n + 2);
            assert(s == start + m + listening() + end);
            assert(every(m, p));
            lemma_every_joined(start, m, p);
            lemma_every_joined(start + m, listening(), p);
            lemma_every_joined(start + m + listening(), end, p);
        },
        RouteV::Provider(x) => {
            let m = s.subrange(n, n + 3);
            let f = s.subrange(n + 7, n + 8);
            assert(s == start + m + listening() + f + end);
            assert(every(m, p));
            assert(every(f, p));
            lemma_every_joined(start, m, p);
            lemma_every_joined(start + m, listening(), p);
            lemma_every_joined(start + m + listening(), f, p);
            lemma_every_joined(start + m + listening() + f, end, p);
        },
        _ => {
            let m = s.subrange(n, n + 5);
            let d = interception_steps(false, o.proxy_username is Some);
            assert(s == start + m + listening() + d + end);
            assert(every(m, p));
            assert(every(d, p));
            lemma_every_joined(start, m, p);
            lemma_every_joined(start + m, listening(), p);
            lemma_every_joined(start + m + listening(), d, p);
            lemma_every_joined(start + m + listening() + d, end, p);
        },
    }
    assert(every(s, p));
    assert(p(s[i]));
    assert(s[i] == r.steps@[i].view());
}

/// A launch by command closes the old browser before anything else; one of a local
/// browser keeps the credentials, restricts the domains, and sets and notes the engine
/// down before it launches; and storage is loaded only once requests are intercepted.
pub proof fn law_launch_keeps_its_order(
    cmd: &Json,
    env: &Environment,
    options: &LaunchOptions,
    has_old: bool,
    filtered: bool,
    r: LaunchPlan,
    i: int,
    j: int,
)
    requires
        call_ensures(handle_launch, (cmd, env, options, false, has_old, filtered), r),
        0 <= i < r.steps@.len(),
        0 <= j < r.steps@.len(),
    ensures
        has_old ==> r.steps@[0].action.view() is CloseBrowser,
        r.steps@[i].action.view() is LoadStorageState && (
        r.steps@[j].action.view() is InstallDomainFilter
            || r.steps@[j].action.view() is InstallFetchForProxy) ==> j < i,
        asks_for_local(cmd.view()) && r.steps@[i].action.view() is LaunchLocal && (
        r.steps@[j].action.view() is StoreProxyCredentials
            || r.steps@[j].action.view() is SetDomainFilter
            || r.steps@[j].action.view() is SetEngine
            || r.steps@[j].action.view() is WriteEngineFile
            || r.steps@[j].action.view() is ClearRefs
            || r.steps@[j].action.view() is ValidateOptions) ==> j < i,
        r.steps@[i].action.view() is WriteEngineFile && r.steps@[j].action.view() is SetEngine
            ==> j < i,
{
    let c = cmd.view();
    let o = options.view();
    let s = steps_view(r.steps@);
    assert(s[i] == r.steps@[i].view());
    assert(s[j] == r.steps@[j].view());
    if has_old {
        crate::launch::law_old_browser_is_closed_first(c, *env, o, filtered);
        assert(s[0] == r.steps@[0].view());
    }
    if s[i].action is LoadStorageState && (s[j].action is InstallDomainFilter
        || s[j].action is InstallFetchForProxy) {
        law_storage_follows_interception(c, *env, o, false, has_old, filtered, j, i);
    }
    if command_way(c) is Local {
        lemma_local_order(c, *env, o, has_old, filtered, i);
        lemma_local_order(c, *env, o, has_old, filtered, j);
    } else {
        lemma_ways(c, *env, o, filtered, s[i].action);
        lemma_plan(c, *env, o, has_old, filtered, s[i].action);
        assert(does(s, s[i].action));
    }
}

/// What a local launch does before it sets the engine.
spec fn local_front(cmd: JsonV, o: OptionsV, has_old: bool) -> Seq<StepV> {
    clearing_steps(has_old, false) + credential_steps(o) + filter_steps(cmd)
}

/// What a local launch does once the browser is there.
spec fn local_rear(cmd: JsonV, o: OptionsV, filtered: bool) -> Seq<StepV> {
    listening() + interception_steps(
        filtered || cmd.str_at("allowedDomains"@) is Some,
        o.proxy_username is Some,
    ) + closing_steps(cmd)
}

spec fn is_early(s: StepV) -> bool {
    !(s.action is SetEngine || s.action is WriteEngineFile || s.action is LaunchLocal)
}

spec fn is_late(s: StepV) -> bool {
    is_early(s) && !(s.action is StoreProxyCredentials || s.action is SetDomainFilter
        || s.action is ClearRefs || s.action is ValidateOptions)
}

proof fn lemma_local_front(cmd: JsonV, o: OptionsV, has_old: bool)
    ensures
        every(local_front(cmd, o, has_old), |s: StepV| is_early(s)),
{
    let p = |s: StepV| is_early(s);
    let a = clearing_steps(has_old, false);
    let b = credential_steps(o);
    let c = filter_steps(cmd);
    assert(every(a, p));
    assert(every(b, p));
    assert(every(c, p));
    lemma_every_joined(a, b, p);
    lemma_every_joined(a + b, c, p);
}

proof fn lemma_local_rear(cmd: JsonV, o: OptionsV, filtered: bool)
    ensures
        every(local_rear(cmd, o, filtered), |s: StepV| is_late(s)),
{
    let p = |s: StepV| is_late(s);
    let a = listening();
    let b = interception_steps(
        filtered || cmd.str_at("allowedDomains"@) is Some,
        o.proxy_username is Some,
    );
    let c = storage_steps(cmd.str_at("storageState"@), OnFailure::RollBack);
    let d = seq![StepV { action: ActionV::ApplyInitScripts, on_failure: OnFailure::Ignore }];
    assert(every(a, p));
    assert(every(b, p));
    assert(every(c, p));
    assert(every(d, p));
    lemma_every_joined(c, d, p);
    lemma_every_joined(a, b, p);
    lemma_every_joined(a + b, c + d, p);
}

proof fn lemma_local_plan(
    cmd: JsonV,
    env: Environment,
    o: OptionsV,
    has_old: bool,
    filtered: bool,
)
    requires
        command_way(cmd) is Local,
    ensures
        launch_steps(cmd, env, o, false, has_old, filtered) == local_front(cmd, o, has_old)
            + local_steps(engine_of(cmd, env)) + local_rear(cmd, o, filtered),
{
    let a = clearing_steps(has_old, false);
    let b = credential_steps(o);
    let c = filter_steps(cmd);
    let d = local_steps(engine_of(cmd, env));
    let e = listening();
    let f = interception_steps(
        filtered || cmd.str_at("allowedDomains"@) is Some,
        o.proxy_username is Some,
    );
    let g = closing_steps(cmd);
    lemma_regrouped(a, b, c, d, e, f, g);
}

proof fn lemma_regrouped(
    a: Seq<StepV>,
    b: Seq<StepV>,
    c: Seq<StepV>,
    d: Seq<StepV>,
    e: Seq<StepV>,
    f: Seq<StepV>,
    g: Seq<StepV>,
)
    ensures
        a + (b + c + d + e + f) + g == (a + b + c) + d + (e + f + g),
{
}

proof fn lemma_local_order(
    cmd: JsonV,
    env: Environment,
    o: OptionsV,
    has_old: bool,
    filtered: bool,
    i: int,
)
    requires
        command_way(cmd) is Local,
        0 <= i < launch_steps(cmd, env, o, false, has_old, filtered).len(),
    ensures
        ({
            let a = launch_steps(cmd, env, o, false, has_old, filtered)[i].action;
            let n = local_front(cmd, o, has_old).len();
            &&& a is SetEngine ==> i == n
            &&& a is WriteEngineFile ==> i == n + 1
            &&& a is LaunchLocal ==> i == n + 4
            &&& a is StoreProxyCredentials || a is SetDomainFilter || a is ClearRefs
                || a is ValidateOptions ==> i < n
        }),
{
    lemma_local_plan(cmd, env, o, has_old, filtered);
    lemma_local_front(cmd, o, has_old);
    lemma_local_rear(cmd, o, filtered);
    lemma_place(
        local_front(cmd, o, has_old),
        engine_of(cmd, env),
        local_rear(cmd, o, filtered),
        i,
    );
}

proof fn lemma_place(front: Seq<StepV>, engine: Option<Seq<char>>, rear: Seq<StepV>, i: int)
    requires
        every(front, |s: StepV| is_early(s)),
        every(rear, |s: StepV| is_late(s)),
        0 <= i < (front + local_steps(engine) + rear).len(),
    ensures
        ({
            let a = (front + local_steps(engine) + rear)[i].action;
            let n = front.len();
            &&& a is SetEngine ==> i == n
            &&& a is WriteEngineFile ==> i == n + 1
            &&& a is LaunchLocal ==> i == n + 4
            &&& a is StoreProxyCredentials || a is SetDomainFilter || a is ClearRefs
                || a is ValidateOptions ==> i < n
        }),
{
    let d = local_steps(engine);
    let all = front + d + rear;
    let n = front.len() as int;
    if i < n {
        assert(all[i] == front[i]);
        assert(is_early(front[i]));
    } else if i < n + d.len() {
        assert(all[i] == d[i - n]);
    } else {
        assert(all[i] == rear[i - n - d.len()]);
        assert(is_late(rear[i - n - d.len()]));
    }
}

/// A launch that connects to a browser does what its way needs and nothing else: it
/// neither sets an engine nor restricts domains, and only one by a provider notes a
/// provider down.
pub proof fn law_connection_does_nothing_else(
    cmd: &Json,
    env: &Environment,
    options: &LaunchOptions,
    has_old: bool,
    filtered: bool,
    r: LaunchPlan,
    x: ActionV,
)
    requires
        call_ensures(handle_launch, (cmd, env, options, false, has_old, filtered), r),
        !asks_for_local(cmd.view()),
        does(steps_view(r.steps@), x),
    ensures
        x is CloseBrowser || x is ClearRefs || x is ValidateOptions || x is ResetInput
            || leads_to_browser(x) && !(x is LaunchLocal) || is_listening(x)
            || x is ApplyInitScripts || x is LoadStorageState || (cmd.view().str_at(
            "provider"@,
        ) is Some && (x is RememberProviderSession || x is WriteProviderFile)),
{
    let c = cmd.view();
    let o = options.view();
    lemma_ways(c, *env, o, filtered, x);
    lemma_plan(c, *env, o, has_old, filtered, x);
}

/// A connection that is to be used starts with the input state reset.
pub proof fn law_connection_resets_the_input(
    cmd: &Json,
    env: &Environment,
    options: &LaunchOptions,
    has_old: bool,
    filtered: bool,
    r: LaunchPlan,
)
    requires
        call_ensures(handle_launch, (cmd, env, options, false, has_old, filtered), r),
        !asks_for_device(cmd.view()),
    ensures
        does(steps_view(r.steps@), ActionV::ResetInput),
{
    let c = cmd.view();
    let o = options.view();
    let x = ActionV::ResetInput;
    lemma_ways(c, *env, o, filtered, x);
    lemma_plan(c, *env, o, has_old, filtered, x);
    if let Some(p) = c.str_at("provider"@) {
        if command_way(c) is Ios || command_way(c) is Safari {
            assert(asks_for_provider(c, p));
        }
    }
    if command_way(c) is Local {
        lemma_local(engine_of(c, *env), x);
        lemma_local_way(c, *env, o, filtered, x);
    }
}

/// A device is asked for by the name, the id and the platform version that the command
/// gives; commands reach it by its WebDriver session, at the port of its server.
pub proof fn law_device_is_asked_for(
    cmd: &Json,
    q: DeviceRequest,
    id: Option<String>,
    driver: Option<DriverSession>,
    session: &str,
    front: CdpCommand,
)
    requires
        call_ensures(device_request, (cmd,), q),
        call_ensures(ios_driver, (id,), driver),
        call_ensures(bring_to_front, (session,), front),
    ensures
        opt_string(q.name) == cmd.view().str_at("deviceName"@),
        opt_string(q.udid) == cmd.view().str_at("udid"@),
        opt_string(q.platform_version) == cmd.view().str_at("platformVersion"@),
        driver is Some <==> id is Some,
        driver matches Some(d) ==> d.port == 4723 && d.id@ == id->Some_0@,
        front.method@ == "Page.bringToFront"@,
        opt_string(front.session) == Some(session@),
        front.params is None,
{
    assert(front.view().params is None);
}

/// What a launch without a command may do: what leads to the browser, makes it ready and
/// notes it down.
pub open spec fn auto_allows(env: Environment, x: ActionV) -> bool {
    &&& !(x is CloseBrowser || x is ClearRefs || x is ValidateOptions || x is LaunchIos
        || x is LaunchSafari || x is SetDomainFilter || x is InstallDomainFilter
        || x is SanitizeOpenPages || x is UseWebDriver)
    &&& x is LoadStorageState ==> env.value("AGENT_BROWSER_STATE"@) == Some(
        x->LoadStorageState_0,
    )
    &&& x is StoreProxyCredentials ==> env.value("AGENT_BROWSER_PROXY_USERNAME"@) == Some(
        x->StoreProxyCredentials_0,
    )
    &&& x is InstallFetchForProxy ==> env.value("AGENT_BROWSER_PROXY_USERNAME"@) is Some
}

/// A launch without a command does nothing but what leads to the browser, makes it ready
/// and notes it down: storage is loaded from nowhere but where the environment says, and
/// credentials are kept for nobody but whom it names.
pub proof fn law_auto_launch_does_nothing_else(
    env: &Environment,
    viewport: Option<(u32, u32)>,
    r: AutoLaunch,
    i: int,
)
    requires
        call_ensures(auto_launch, (env, viewport), r),
        0 <= i < r.steps@.len(),
    ensures
        auto_allows(*env, r.steps@[i].action.view()),
{
    let e = *env;
    let p = |s: StepV| auto_allows(e, s.action);
    let s = steps_view(r.steps@);
    let o = env_options(*env);
    let start = auto_start(*env);
    let end = best_effort(o.storage_state);
    assert(every(start, p));
    assert(every(end, p));
    assert(every(listening(), p));
    let n = start.len() as int;
    match auto_way(*env) {
        RouteV::Cdp(x) => {
            let m = s.subrange(n, n + 2);
            assert(s == start + m + listening() + end);
            assert(every(m, p));
            lemma_every_joined(start, m, p);
            lemma_every_joined(start + m, listening(), p);
            lemma_every_joined(start + m + listening(), end, p);
        },
        RouteV::Auto => {
            let m = s.subrange(n, n + 2);
            assert(s == start + m + listening() + end);
            assert(every(m, p));
            lemma_every_joined(start, m, p);
            lemma_every_joined(start + m, listening(), p);
            lemma_every_joined(start + m + listening(), end, p);
        },
        RouteV::Provider(x) => {
            let m = s.subrange(n, n + 3);
            let f = s.subrange(n + 7, n + 8);
            assert(s == start + m + listening() + f + end);
            assert(every(m, p));
            assert(every(f, p));
            lemma_every_joined(start, m, p);
            lemma_every_joined(start + m, listening(), p);
            lemma_every_joined(start + m + listening(), f, p);
            lemma_every_joined(start + m + listening() + f, end, p);
        },
        _ => {
            let m = s.subrange(n, n + 5);
            let d = interception_steps(false, o.proxy_username is Some);
            assert(s == start + m + listening() + d + end);
            assert(every(m, p));
            assert(every(d, p));
            lemma_every_joined(start, m, p);
            lemma_every_joined(start + m, listening(), p);
            lemma_every_joined(start + m + listening(), d, p);
            lemma_every_joined(start + m + listening() + d, end, p);
        },
    }
    assert(every(s, p));
    assert(p(s[i]));
    assert(s[i] == r.steps@[i].view());
}

/// A launch without a command leads to exactly one browser, and what needs it comes after.
pub proof fn law_auto_launch_leads_to_one_browser(
    env: &Environment,
    viewport: Option<(u32, u32)>,
    r: AutoLaunch,
    i: int,
    j: int,
)
    requires
        call_ensures(auto_launch, (env, viewport), r),
        0 <= i < r.steps@.len(),
        0 <= j < r.steps@.len(),
        leads_to_browser(r.steps@[i].action.view()),
    ensures
        leads_to_browser(r.steps@[j].action.view()) ==> i == j,
        is_listening(r.steps@[j].action.view()) || r.steps@[j].action.view() is LoadStorageState
            || r.steps@[j].action.view() is ApplyInitScripts
            || r.steps@[j].action.view() is RestoreSession
            || r.steps@[j].action.view() is RememberLaunchHash
            || r.steps@[j].action.view() is InstallFetchForProxy
            || r.steps@[j].action.view() is RememberProviderSession ==> i < j,
{
    law_auto_launch_reaches_one_browser(*env);
    let s = steps_view(r.steps@);
    let c = choose|c: int| #[trigger] reached_at(s, c);
    assert(s[i] == r.steps@[i].view());
    assert(s[j] == r.steps@[j].view());
    assert(crate::launch::connects(s[i].action));
    assert(i == c);
    if leads_to_browser(s[j].action) {
        assert(crate::launch::connects(s[j].action));
    }
    if j < c {
        assert(!crate::launch::uses_browser(s[j].action));
    }
}

/// The error of a launch without a command names the provider that cannot be reached, and
/// says why.
pub proof fn law_provider_error_names_the_provider(provider: &str, error: &str, r: String)
    requires
        call_ensures(provider_error, (provider, error), r),
    ensures
        r@ == "Provider '"@ + provider@ + "' connection failed: "@ + error@,
{
}

} // verus!
