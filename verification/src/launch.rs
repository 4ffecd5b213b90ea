//! Launching a browser or connecting to one: which way is taken, and the steps of each.
use vstd::prelude::*;
use vstd::string::*;

use crate::cdp::{bare_command, Browser, CdpCommand};
use crate::json::{opt_str, opt_string, or_else, owned, Fields, Json, JsonV, Num};
use crate::number::{decimal, decimal_text};
use crate::options::{
    credentials_of, env_options, first_of, launch_options_from_env, list_items, proxy_credentials,
    split_list, Environment, LaunchOptions, OptionsV,
};
use crate::outside::{lowercase, to_lowercase};
use crate::text::{equal_ignoring_case, same, same_ignoring_case, texts};

verus! {

/// What a launch does, one thing at a time.
#[derive(PartialEq, Eq, Debug)]
pub enum LaunchAction {
    CloseBrowser,
    ClearRefs,
    ValidateOptions(bool),
    ResetInput,
    ConnectCdp(String),
    ConnectAuto,
    ConnectProvider(String),
    LaunchIos,
    LaunchSafari,
    LaunchLocal(Option<String>),
    RememberProviderSession,
    RememberLaunchHash,
    SubscribeToEvents,
    StartFetchHandler,
    StartDialogHandler,
    UpdateStreamClient,
    StoreProxyCredentials(String, String),
    SetDomainFilter(String),
    UseWebDriver,
    SetEngine(String),
    WriteEngineFile,
    WriteExtensionsFile,
    WriteExtensionsFileFromOptions,
    WriteProviderFile(String),
    ApplyMutators,
    InstallDomainFilter(bool),
    SanitizeOpenPages,
    InstallFetchForProxy,
    LoadStorageState(String),
    ApplyInitScripts,
    RestoreSession,
}

/// The contents of an action.
pub ghost enum ActionV {
    CloseBrowser,
    ClearRefs,
    ValidateOptions(bool),
    ResetInput,
    ConnectCdp(Seq<char>),
    ConnectAuto,
    ConnectProvider(Seq<char>),
    LaunchIos,
    LaunchSafari,
    LaunchLocal(Option<Seq<char>>),
    RememberProviderSession,
    RememberLaunchHash,
    SubscribeToEvents,
    StartFetchHandler,
    StartDialogHandler,
    UpdateStreamClient,
    StoreProxyCredentials(Seq<char>, Seq<char>),
    SetDomainFilter(Seq<char>),
    UseWebDriver,
    SetEngine(Seq<char>),
    WriteEngineFile,
    WriteExtensionsFile,
    WriteExtensionsFileFromOptions,
    WriteProviderFile(Seq<char>),
    ApplyMutators,
    InstallDomainFilter(bool),
    SanitizeOpenPages,
    InstallFetchForProxy,
    LoadStorageState(Seq<char>),
    ApplyInitScripts,
    RestoreSession,
}

impl LaunchAction {
    /// The contents of the action.
    pub open spec fn view(self) -> ActionV {
        match self {
            LaunchAction::CloseBrowser => ActionV::CloseBrowser,
            LaunchAction::ClearRefs => ActionV::ClearRefs,
            LaunchAction::ValidateOptions(has_cdp) => ActionV::ValidateOptions(has_cdp),
            LaunchAction::ResetInput => ActionV::ResetInput,
            LaunchAction::ConnectCdp(a) => ActionV::ConnectCdp(a@),
            LaunchAction::ConnectAuto => ActionV::ConnectAuto,
            LaunchAction::ConnectProvider(p) => ActionV::ConnectProvider(p@),
            LaunchAction::LaunchIos => ActionV::LaunchIos,
            LaunchAction::LaunchSafari => ActionV::LaunchSafari,
            LaunchAction::LaunchLocal(e) => ActionV::LaunchLocal(opt_string(e)),
            LaunchAction::RememberProviderSession => ActionV::RememberProviderSession,
            LaunchAction::RememberLaunchHash => ActionV::RememberLaunchHash,
            LaunchAction::SubscribeToEvents => ActionV::SubscribeToEvents,
            LaunchAction::StartFetchHandler => ActionV::StartFetchHandler,
            LaunchAction::StartDialogHandler => ActionV::StartDialogHandler,
            LaunchAction::UpdateStreamClient => ActionV::UpdateStreamClient,
            LaunchAction::StoreProxyCredentials(u, p) => ActionV::StoreProxyCredentials(u@, p@),
            LaunchAction::SetDomainFilter(d) => ActionV::SetDomainFilter(d@),
            LaunchAction::UseWebDriver => ActionV::UseWebDriver,
            LaunchAction::SetEngine(e) => ActionV::SetEngine(e@),
            LaunchAction::WriteEngineFile => ActionV::WriteEngineFile,
            LaunchAction::WriteExtensionsFile => ActionV::WriteExtensionsFile,
            LaunchAction::WriteExtensionsFileFromOptions =>
                ActionV::WriteExtensionsFileFromOptions,
            LaunchAction::WriteProviderFile(p) => ActionV::WriteProviderFile(p@),
            LaunchAction::ApplyMutators => ActionV::ApplyMutators,
            LaunchAction::InstallDomainFilter(auth) => ActionV::InstallDomainFilter(auth),
            LaunchAction::SanitizeOpenPages => ActionV::SanitizeOpenPages,
            LaunchAction::InstallFetchForProxy => ActionV::InstallFetchForProxy,
            LaunchAction::LoadStorageState(p) => ActionV::LoadStorageState(p@),
            LaunchAction::ApplyInitScripts => ActionV::ApplyInitScripts,
            LaunchAction::RestoreSession => ActionV::RestoreSession,
        }
    }
}

/// What becomes of a launch whose step has failed: it ends with the error, it goes on,
/// or the browser is closed again before it ends with the error.
#[derive(Clone, Copy, PartialEq, Eq, Structural, Debug)]
pub enum OnFailure {
    Abort,
    Ignore,
    RollBack,
}

/// A step of a launch.
#[derive(PartialEq, Eq, Debug)]
pub struct LaunchStep {
    pub action: LaunchAction,
    pub on_failure: OnFailure,
}

/// The contents of a step.
pub ghost struct StepV {
    pub action: ActionV,
    pub on_failure: OnFailure,
}

impl LaunchStep {
    /// The contents of the step.
    pub open spec fn view(self) -> StepV {
        StepV { action: self.action.view(), on_failure: self.on_failure }
    }
}

/// The contents of several steps.
pub open spec fn steps_view(list: Seq<LaunchStep>) -> Seq<StepV> {
    list.map_values(|s: LaunchStep| s.view())
}

/// A step that cannot fail, or whose failure does not matter.
pub open spec fn plain(action: ActionV) -> StepV {
    StepV { action, on_failure: OnFailure::Ignore }
}

/// A step whose failure ends the launch.
pub open spec fn vital(action: ActionV) -> StepV {
    StepV { action, on_failure: OnFailure::Abort }
}

/// The steps of a launch as they are put together.
#[derive(PartialEq, Eq, Debug)]
pub struct Steps {
    pub list: Vec<LaunchStep>,
}

impl Steps {
    /// The steps so far.
    pub open spec fn view(self) -> Seq<StepV> {
        steps_view(self.list@)
    }

    /// No steps yet.
    pub fn new() -> (r: Steps)
        ensures
            r.view() == Seq::<StepV>::empty(),
    {
        let s = Steps { list: Vec::new() };
        assert(s.view() == Seq::<StepV>::empty());
        s
    }

    fn add(&mut self, action: LaunchAction, on_failure: OnFailure)
        ensures
            final(self).view() == old(self).view().push(
                (StepV { action: action.view(), on_failure }),
            ),
    {
        let ghost before = self.view();
        let step = LaunchStep { action, on_failure };
        self.list.push(step);
        assert(self.view() == before.push(step.view()));
    }

    fn plain(&mut self, action: LaunchAction)
        ensures
            final(self).view() == old(self).view().push(plain(action.view())),
    {
        self.add(action, OnFailure::Ignore);
    }

    fn vital(&mut self, action: LaunchAction)
        ensures
            final(self).view() == old(self).view().push(vital(action.view())),
    {
        self.add(action, OnFailure::Abort);
    }
}

/// The way to a browser.
#[derive(PartialEq, Eq, Debug)]
pub enum Route {
    Cdp(String),
    Auto,
    Ios,
    Safari,
    Provider(String),
    Local,
}

/// The contents of a route.
pub ghost enum RouteV {
    Cdp(Seq<char>),
    Auto,
    Ios,
    Safari,
    Provider(Seq<char>),
    Local,
}

impl Route {
    /// The contents of the route.
    pub open spec fn view(self) -> RouteV {
        match self {
            Route::Cdp(a) => RouteV::Cdp(a@),
            Route::Auto => RouteV::Auto,
            Route::Ios => RouteV::Ios,
            Route::Safari => RouteV::Safari,
            Route::Provider(p) => RouteV::Provider(p@),
            Route::Local => RouteV::Local,
        }
    }

    /// Whether the route leads to a browser that runs already.
    pub fn is_external(&self) -> (r: bool)
        ensures
            r == external(self.view()),
    {
        matches!(self, Route::Cdp(_) | Route::Auto)
    }
}

/// The route leads to a browser that runs already.
pub open spec fn external(r: RouteV) -> bool {
    r is Cdp || r is Auto
}

/// The route to a provider, given its name in lower case: two of them are devices.
pub open spec fn provider_way(name: Seq<char>, lowered: Seq<char>) -> RouteV {
    if lowered == "ios"@ {
        RouteV::Ios
    } else if lowered == "safari"@ {
        RouteV::Safari
    } else {
        RouteV::Provider(name)
    }
}

/// The route to a provider, given its name in lower case.
pub fn provider_route(name: &str, lowered: &str) -> (r: Route)
    ensures
        r.view() == provider_way(name@, lowered@),
{
    if same(lowered, "ios") {
        Route::Ios
    } else if same(lowered, "safari") {
        Route::Safari
    } else {
        Route::Provider(name.to_owned())
    }
}

/// The route that a launch command asks for. An address goes before a port, a port
/// before automatic connection, and that before a provider.
pub open spec fn command_way(cmd: JsonV) -> RouteV {
    match cmd.str_at("cdpUrl"@) {
        Some(url) => RouteV::Cdp(url),
        None => match cmd.u64_at("cdpPort"@) {
            Some(port) => RouteV::Cdp(decimal(port as nat)),
            None => if or_else(cmd.bool_at("autoConnect"@), false) {
                RouteV::Auto
            } else {
                match cmd.str_at("provider"@) {
                    Some(p) => provider_way(p, lowercase(p)),
                    None => RouteV::Local,
                }
            },
        },
    }
}

/// The route that a launch command asks for.
pub fn command_route(cmd: &Json) -> (r: Route)
    ensures
        r.view() == command_way(cmd.view()),
{
    match cmd.str_at("cdpUrl") {
        Some(url) => Route::Cdp(url.to_owned()),
        None => match cmd.u64_at("cdpPort") {
            Some(port) => Route::Cdp(decimal_text(port as u128)),
            None => {
                let auto = match cmd.bool_at("autoConnect") {
                    Some(b) => b,
                    None => false,
                };
                if auto {
                    Route::Auto
                } else {
                    match cmd.str_at("provider") {
                        Some(p) => provider_route(p, &to_lowercase(p)),
                        None => Route::Local,
                    }
                }
            },
        },
    }
}

/// Whether plugins add to a launch on the given way: to that of a local browser only.
pub fn takes_plugins(route: &Route) -> (r: bool)
    ensures
        r == (route.view() is Local),
{
    matches!(route, Route::Local)
}

/// What is known of the browser that is there when a launch is asked for.
#[derive(PartialEq, Eq, Debug)]
pub struct OldBrowser {
    pub is_external: bool,
    pub launch_hash: Option<u64>,
    pub process_exited: bool,
}

/// What to do with the browser that is there: replace it, keep it if it still answers.
#[derive(Clone, Copy, PartialEq, Eq, Structural, Debug)]
pub enum Relaunch {
    Replace,
    ReplaceUnlessAlive,
}

/// The browser that is there cannot be kept: it was reached in another way, it was
/// launched with other options, storage is to be loaded into a fresh one, or it has
/// ended.
pub open spec fn must_replace(
    old: Option<OldBrowser>,
    way: RouteV,
    new_hash: u64,
    has_storage_state: bool,
) -> bool {
    match old {
        None => true,
        Some(b) => {
            ||| external(way) != b.is_external
            ||| !external(way) && b.launch_hash != Some(new_hash)
            ||| has_storage_state && !external(way)
            ||| b.process_exited
        },
    }
}

/// Whether the browser that is there can be kept. Only where nothing else speaks
/// against it is it asked whether it is alive.
pub fn needs_relaunch(
    old: &Option<OldBrowser>,
    route: &Route,
    new_hash: u64,
    has_storage_state: bool,
) -> (r: Relaunch)
    ensures
        r == if must_replace(*old, route.view(), new_hash, has_storage_state) {
            Relaunch::Replace
        } else {
            Relaunch::ReplaceUnlessAlive
        },
{
    let external = route.is_external();
    match old {
        None => Relaunch::Replace,
        Some(b) => {
            let same_hash = match b.launch_hash {
                Some(h) => h == new_hash,
                None => false,
            };
            if external != b.is_external || (!external && !same_hash) || (has_storage_state
                && !external) || b.process_exited {
                Relaunch::Replace
            } else {
                Relaunch::ReplaceUnlessAlive
            }
        },
    }
}

/// Whether the browser that is there is kept, given whether it is alive.
pub fn keeps(relaunch: Relaunch, alive: bool) -> (r: bool)
    ensures
        r == (relaunch is ReplaceUnlessAlive && alive),
{
    match relaunch {
        Relaunch::Replace => false,
        Relaunch::ReplaceUnlessAlive => alive,
    }
}

/// The steps that let a connected browser be listened to.
pub open spec fn listening() -> Seq<StepV> {
    seq![
        plain(ActionV::SubscribeToEvents),
        plain(ActionV::StartFetchHandler),
        plain(ActionV::StartDialogHandler),
        plain(ActionV::UpdateStreamClient),
    ]
}

/// The step that loads storage, where some is to be loaded.
pub open spec fn storage_steps(path: Option<Seq<char>>, on_failure: OnFailure) -> Seq<StepV> {
    match path {
        Some(p) => seq![StepV { action: ActionV::LoadStorageState(p), on_failure }],
        None => Seq::<StepV>::empty(),
    }
}

/// The step that keeps the credentials for the proxy, where there are some.
pub open spec fn credential_steps(o: OptionsV) -> Seq<StepV> {
    match credentials_of(o) {
        Some((user, password)) => seq![plain(ActionV::StoreProxyCredentials(user, password))],
        None => Seq::<StepV>::empty(),
    }
}

/// The step that restricts the domains, where a launch command does.
pub open spec fn filter_steps(cmd: JsonV) -> Seq<StepV> {
    match cmd.str_at("allowedDomains"@) {
        Some(domains) => seq![plain(ActionV::SetDomainFilter(domains))],
        None => Seq::<StepV>::empty(),
    }
}

/// The steps that have requests intercepted, where that is needed: one for the domain
/// filter, which then also answers for the proxy, and one that brings the pages that are
/// open already under the filter; or else one for the proxy alone.
pub open spec fn interception_steps(filtered: bool, proxy_auth: bool) -> Seq<StepV> {
    if filtered {
        seq![
            plain(ActionV::InstallDomainFilter(proxy_auth)),
            plain(ActionV::SanitizeOpenPages),
        ]
    } else if proxy_auth {
        seq![plain(ActionV::InstallFetchForProxy)]
    } else {
        Seq::<StepV>::empty()
    }
}

/// The engine that a launch command asks for, or else the environment.
pub open spec fn engine_of(cmd: JsonV, env: Environment) -> Option<Seq<char>> {
    first_of(cmd.str_at("engine"@), env.value("AGENT_BROWSER_ENGINE"@))
}

/// The steps that lead to a browser on the way that a launch command asks for, and let
/// it be listened to. `filtered` tells whether the domains were restricted before.
pub open spec fn connection_steps(
    cmd: JsonV,
    env: Environment,
    o: OptionsV,
    filtered: bool,
) -> Seq<StepV> {
    match command_way(cmd) {
        RouteV::Cdp(address) => seq![
            plain(ActionV::ResetInput),
            vital(ActionV::ConnectCdp(address)),
        ] + listening(),
        RouteV::Auto => seq![plain(ActionV::ResetInput), vital(ActionV::ConnectAuto)]
            + listening(),
        RouteV::Ios => seq![vital(ActionV::LaunchIos)],
        RouteV::Safari => seq![vital(ActionV::LaunchSafari)],
        RouteV::Provider(p) => seq![
            vital(ActionV::ConnectProvider(p)),
            plain(ActionV::ResetInput),
            plain(ActionV::RememberProviderSession),
        ] + listening() + seq![plain(ActionV::WriteProviderFile(p))],
        RouteV::Local => credential_steps(o) + filter_steps(cmd) + local_steps(
            engine_of(cmd, env),
        ) + listening() + interception_steps(
            filtered || cmd.str_at("allowedDomains"@) is Some,
            o.proxy_username is Some,
        ),
    }
}

/// The steps that launch a local browser with an engine, Chrome where none is asked for.
pub open spec fn local_steps(engine: Option<Seq<char>>) -> Seq<StepV> {
    seq![
        plain(ActionV::SetEngine(or_else(engine, "chrome"@))),
        plain(ActionV::WriteEngineFile),
        plain(ActionV::WriteExtensionsFileFromOptions),
        plain(ActionV::ResetInput),
        vital(ActionV::LaunchLocal(engine)),
        plain(ActionV::RememberLaunchHash),
    ]
}

/// The last steps of a launch command: storage is loaded, and the launch is undone where
/// that fails; then the init scripts are applied.
pub open spec fn closing_steps(cmd: JsonV) -> Seq<StepV> {
    storage_steps(cmd.str_at("storageState"@), OnFailure::RollBack) + seq![
        plain(ActionV::ApplyInitScripts),
    ]
}

/// The steps to a browser that is ready for use. A device has no storage to load and no
/// init scripts.
pub open spec fn route_steps(
    cmd: JsonV,
    env: Environment,
    o: OptionsV,
    filtered: bool,
) -> Seq<StepV> {
    let connection = connection_steps(cmd, env, o, filtered);
    if command_way(cmd) is Ios || command_way(cmd) is Safari {
        connection
    } else {
        connection + closing_steps(cmd)
    }
}

/// The steps before the way to a new browser: the old one, if there is one, is closed,
/// its element references are dropped, and the options are checked.
/// What is allowed depends on whether the browser is reached at an address.
pub open spec fn clearing_steps(has_old: bool, has_cdp: bool) -> Seq<StepV> {
    (if has_old {
        seq![vital(ActionV::CloseBrowser)]
    } else {
        Seq::<StepV>::empty()
    }) + seq![plain(ActionV::ClearRefs), vital(ActionV::ValidateOptions(has_cdp))]
}

/// The steps of a launch command. A browser that is kept only has storage loaded.
pub open spec fn launch_steps(
    cmd: JsonV,
    env: Environment,
    o: OptionsV,
    keep: bool,
    has_old: bool,
    filtered: bool,
) -> Seq<StepV> {
    if keep {
        storage_steps(cmd.str_at("storageState"@), OnFailure::Abort)
    } else {
        clearing_steps(has_old, command_way(cmd) is Cdp) + route_steps(cmd, env, o, filtered)
    }
}

impl Steps {
    fn add_listening(&mut self)
        ensures
            final(self).view() == old(self).view() + listening(),
    {
        let ghost before = self.view();
        self.plain(LaunchAction::SubscribeToEvents);
        self.plain(LaunchAction::StartFetchHandler);
        self.plain(LaunchAction::StartDialogHandler);
        self.plain(LaunchAction::UpdateStreamClient);
        assert(self.view() == before + listening());
    }

    fn add_storage(&mut self, path: Option<&str>, on_failure: OnFailure)
        ensures
            final(self).view() == old(self).view() + storage_steps(opt_str(path), on_failure),
    {
        let ghost before = self.view();
        match path {
            Some(p) => self.add(LaunchAction::LoadStorageState(p.to_owned()), on_failure),
            None => {},
        }
        assert(self.view() == before + storage_steps(opt_str(path), on_failure));
    }

    fn add_credentials(&mut self, options: &LaunchOptions)
        ensures
            final(self).view() == old(self).view() + credential_steps(options.view()),
    {
        let ghost before = self.view();
        match proxy_credentials(options) {
            Some((user, password)) => self.plain(
                LaunchAction::StoreProxyCredentials(user, password),
            ),
            None => {},
        }
        assert(self.view() == before + credential_steps(options.view()));
    }

    fn add_filter(&mut self, cmd: &Json)
        ensures
            final(self).view() == old(self).view() + filter_steps(cmd.view()),
    {
        let ghost before = self.view();
        match cmd.str_at("allowedDomains") {
            Some(d) => self.plain(LaunchAction::SetDomainFilter(d.to_owned())),
            None => {},
        }
        assert(self.view() == before + filter_steps(cmd.view()));
    }

    fn add_interception(&mut self, filtered: bool, proxy_auth: bool)
        ensures
            final(self).view() == old(self).view() + interception_steps(filtered, proxy_auth),
    {
        let ghost before = self.view();
        if filtered {
            self.plain(LaunchAction::InstallDomainFilter(proxy_auth));
            self.plain(LaunchAction::SanitizeOpenPages);
        } else if proxy_auth {
            self.plain(LaunchAction::InstallFetchForProxy);
        }
        assert(self.view() == before + interception_steps(filtered, proxy_auth));
    }

    fn add_closing(&mut self, cmd: &Json)
        ensures
            final(self).view() == old(self).view() + closing_steps(cmd.view()),
    {
        let ghost before = self.view();
        self.add_storage(cmd.str_at("storageState"), OnFailure::RollBack);
        self.plain(LaunchAction::ApplyInitScripts);
        assert(self.view() == before + closing_steps(cmd.view()));
    }

    fn add_clearing(&mut self, has_old: bool, has_cdp: bool)
        ensures
            final(self).view() == old(self).view() + clearing_steps(has_old, has_cdp),
    {
        let ghost before = self.view();
        if has_old {
            self.vital(LaunchAction::CloseBrowser);
        }
        self.plain(LaunchAction::ClearRefs);
        self.vital(LaunchAction::ValidateOptions(has_cdp));
        assert(self.view() == before + clearing_steps(has_old, has_cdp));
    }

    fn add_local(&mut self, cmd: &Json, env: &Environment)
        ensures
            final(self).view() == old(self).view() + local_steps(engine_of(cmd.view(), *env)),
    {
        let ghost before = self.view();
        let engine = match cmd.str_at("engine") {
            Some(e) => Some(e),
            None => env.get("AGENT_BROWSER_ENGINE"),
        };
        let name = match engine {
            Some(e) => e,
            None => "chrome",
        };
        self.plain(LaunchAction::SetEngine(name.to_owned()));
        self.plain(LaunchAction::WriteEngineFile);
        self.plain(LaunchAction::WriteExtensionsFileFromOptions);
        self.plain(LaunchAction::ResetInput);
        self.vital(LaunchAction::LaunchLocal(owned(engine)));
        self.plain(LaunchAction::RememberLaunchHash);
        assert(self.view() == before + local_steps(engine_of(cmd.view(), *env)));
    }
}

fn steps_to_browser(cmd: &Json, env: &Environment, options: &LaunchOptions, filtered: bool) -> (r:
    Steps)
    ensures
        r.view() == route_steps(cmd.view(), *env, options.view(), filtered),
{
    let mut s = Steps::new();
    match command_route(cmd) {
        Route::Cdp(address) => {
            s.plain(LaunchAction::ResetInput);
            s.vital(LaunchAction::ConnectCdp(address));
            assert(s.view() == seq![
                plain(ActionV::ResetInput),
                vital(ActionV::ConnectCdp(address@)),
            ]);
            s.add_listening();
            s.add_closing(cmd);
        },
        Route::Auto => {
            s.plain(LaunchAction::ResetInput);
            s.vital(LaunchAction::ConnectAuto);
            assert(s.view() == seq![plain(ActionV::ResetInput), vital(ActionV::ConnectAuto)]);
            s.add_listening();
            s.add_closing(cmd);
        },
        Route::Ios => {
            s.vital(LaunchAction::LaunchIos);
            assert(s.view() == seq![vital(ActionV::LaunchIos)]);
        },
        Route::Safari => {
            s.vital(LaunchAction::LaunchSafari);
            assert(s.view() == seq![vital(ActionV::LaunchSafari)]);
        },
        Route::Provider(p) => {
            let name = p.clone();
            s.vital(LaunchAction::ConnectProvider(p));
            s.plain(LaunchAction::ResetInput);
            s.plain(LaunchAction::RememberProviderSession);
            assert(s.view() == seq![
                vital(ActionV::ConnectProvider(p@)),
                plain(ActionV::ResetInput),
                plain(ActionV::RememberProviderSession),
            ]);
            s.add_listening();
            let ghost before = s.view();
            s.plain(LaunchAction::WriteProviderFile(name));
            assert(s.view() == before + seq![plain(ActionV::WriteProviderFile(p@))]);
            s.add_closing(cmd);
        },
        Route::Local => {
            s.add_credentials(options);
            assert(s.view() == credential_steps(options.view()));
            s.add_filter(cmd);
            s.add_local(cmd, env);
            s.add_listening();
            s.add_interception(
                filtered || cmd.str_at("allowedDomains").is_some(),
                options.proxy_username.is_some(),
            );
            s.add_closing(cmd);
        },
    }
    s
}

/// What is answered to a launch command: a text of its own; what the provider tells; or
/// what the launch on a device gives.
#[derive(PartialEq, Eq, Debug)]
pub enum LaunchReply {
    Plain(Json),
    OfProvider(String),
    OfDevice,
}

/// The contents of what is answered.
pub ghost enum ReplyV {
    Plain(JsonV),
    OfProvider(Seq<char>),
    OfDevice,
}

impl LaunchReply {
    /// The contents of the answer.
    pub open spec fn view(self) -> ReplyV {
        match self {
            LaunchReply::Plain(j) => ReplyV::Plain(j.view()),
            LaunchReply::OfProvider(p) => ReplyV::OfProvider(p@),
            LaunchReply::OfDevice => ReplyV::OfDevice,
        }
    }
}

/// What is answered to a launch command.
pub open spec fn reply_of(way: RouteV, keep: bool) -> ReplyV {
    if keep {
        ReplyV::Plain(launched(true))
    } else {
        match way {
            RouteV::Provider(p) => ReplyV::OfProvider(p),
            RouteV::Ios => ReplyV::OfDevice,
            RouteV::Safari => ReplyV::OfDevice,
            _ => ReplyV::Plain(launched(false)),
        }
    }
}

/// A launch by command: its steps, what is answered once they are done, and whether it
/// came without a command (see `after_provider`).
#[derive(PartialEq, Eq, Debug)]
pub struct LaunchPlan {
    pub steps: Vec<LaunchStep>,
    pub reply: LaunchReply,
    pub automatic: bool,
}

/// The launch that a command asks for, given the options after the plugins have added to
/// them, whether the browser that is there is kept, whether there is one to close, and
/// whether the domains were restricted before.
pub fn handle_launch(
    cmd: &Json,
    env: &Environment,
    options: &LaunchOptions,
    keep: bool,
    has_old: bool,
    filtered: bool,
) -> (r: LaunchPlan)
    ensures
        steps_view(r.steps@) == launch_steps(
            cmd.view(),
            *env,
            options.view(),
            keep,
            has_old,
            filtered,
        ),
        r.reply.view() == reply_of(command_way(cmd.view()), keep),
        !r.automatic,
{
    let mut s = Steps::new();
    if keep {
        s.add_storage(cmd.str_at("storageState"), OnFailure::Abort);
        assert(s.view() == storage_steps(cmd.view().str_at("storageState"@), OnFailure::Abort));
        LaunchPlan {
            steps: s.list,
            reply: LaunchReply::Plain(launch_reply(true)),
            automatic: false,
        }
    } else {
        let route = command_route(cmd);
        let has_cdp = matches!(route, Route::Cdp(_));
        s.add_clearing(has_old, has_cdp);
        assert(s.view() == clearing_steps(has_old, has_cdp));
        let mut rest = steps_to_browser(cmd, env, options, filtered);
        let ghost a = s.list@;
        let ghost b = rest.list@;
        s.list.append(&mut rest.list);
        assert(steps_view(a + b) == steps_view(a) + steps_view(b));
        let reply = match route {
            Route::Provider(p) => LaunchReply::OfProvider(p),
            Route::Ios => LaunchReply::OfDevice,
            Route::Safari => LaunchReply::OfDevice,
            _ => LaunchReply::Plain(launch_reply(false)),
        };
        LaunchPlan { steps: s.list, reply, automatic: false }
    }
}

/// The way to a browser by the provider that the environment names, given that name in
/// lower case. Devices are launched on command only.
pub open spec fn auto_provider_way(lowered: Seq<char>) -> RouteV {
    if lowered.len() == 0 || lowered == "ios"@ || lowered == "safari"@ {
        RouteV::Local
    } else {
        RouteV::Provider(lowered)
    }
}

/// The way to a browser by the provider that the environment names, given that name in
/// lower case.
pub fn auto_provider_route(lowered: String) -> (r: Route)
    ensures
        r.view() == auto_provider_way(lowered@),
{
    if lowered.as_str().is_empty() || same(&lowered, "ios") || same(&lowered, "safari") {
        Route::Local
    } else {
        Route::Provider(lowered)
    }
}

/// The way to a browser that the environment asks for.
pub open spec fn auto_way(env: Environment) -> RouteV {
    match env.value("AGENT_BROWSER_CDP"@) {
        Some(address) => RouteV::Cdp(address),
        None => if env.value("AGENT_BROWSER_AUTO_CONNECT"@) is Some {
            RouteV::Auto
        } else {
            match env.value("AGENT_BROWSER_PROVIDER"@) {
                Some(p) => auto_provider_way(lowercase(p)),
                None => RouteV::Local,
            }
        },
    }
}

/// The way to a browser that the environment asks for.
pub fn auto_route(env: &Environment) -> (r: Route)
    ensures
        r.view() == auto_way(*env),
{
    match env.get("AGENT_BROWSER_CDP") {
        Some(address) => Route::Cdp(address.to_owned()),
        None => if env.get("AGENT_BROWSER_AUTO_CONNECT").is_some() {
            Route::Auto
        } else {
            match env.get("AGENT_BROWSER_PROVIDER") {
                Some(p) => auto_provider_route(to_lowercase(p)),
                None => Route::Local,
            }
        },
    }
}

/// The last steps of a launch without a command: whatever of them fails, the browser
/// stays.
pub open spec fn best_effort(path: Option<Seq<char>>) -> Seq<StepV> {
    seq![plain(ActionV::ApplyInitScripts), plain(ActionV::RestoreSession)] + storage_steps(
        path,
        OnFailure::Ignore,
    )
}

/// The first steps of a launch without a command.
pub open spec fn auto_start(env: Environment) -> Seq<StepV> {
    credential_steps(env_options(env)) + seq![
        plain(ActionV::SetEngine(or_else(env.value("AGENT_BROWSER_ENGINE"@), "chrome"@))),
        plain(ActionV::WriteEngineFile),
        plain(ActionV::WriteExtensionsFile),
    ]
}

/// The steps of a launch without a command, by the environment alone.
pub open spec fn auto_steps(env: Environment) -> Seq<StepV> {
    let o = env_options(env);
    let end = best_effort(o.storage_state);
    match auto_way(env) {
        RouteV::Cdp(address) => auto_start(env) + seq![
            vital(ActionV::ConnectCdp(address)),
            plain(ActionV::ResetInput),
        ] + listening() + end,
        RouteV::Auto => auto_start(env) + seq![
            plain(ActionV::ResetInput),
            vital(ActionV::ConnectAuto),
        ] + listening() + end,
        RouteV::Provider(p) => auto_start(env) + seq![
            vital(ActionV::ConnectProvider(p)),
            plain(ActionV::ResetInput),
            plain(ActionV::RememberProviderSession),
        ] + listening() + seq![plain(ActionV::WriteProviderFile(p))] + end,
        _ => auto_start(env) + seq![
            vital(ActionV::ApplyMutators),
            plain(ActionV::WriteExtensionsFileFromOptions),
            vital(ActionV::LaunchLocal(env.value("AGENT_BROWSER_ENGINE"@))),
            plain(ActionV::ResetInput),
            plain(ActionV::RememberLaunchHash),
        ] + listening() + interception_steps(false, o.proxy_username is Some) + end,
    }
}

impl Steps {
    fn add_best_effort(&mut self, path: Option<&str>)
        ensures
            final(self).view() == old(self).view() + best_effort(opt_str(path)),
    {
        let ghost before = self.view();
        self.plain(LaunchAction::ApplyInitScripts);
        self.plain(LaunchAction::RestoreSession);
        self.add_storage(path, OnFailure::Ignore);
        assert(self.view() == before + best_effort(opt_str(path)));
    }

    fn add_auto_start(&mut self, env: &Environment, options: &LaunchOptions)
        requires
            options.view() == env_options(*env),
        ensures
            final(self).view() == old(self).view() + auto_start(*env),
    {
        let ghost before = self.view();
        self.add_credentials(options);
        let name = match env.get("AGENT_BROWSER_ENGINE") {
            Some(e) => e,
            None => "chrome",
        };
        self.plain(LaunchAction::SetEngine(name.to_owned()));
        self.plain(LaunchAction::WriteEngineFile);
        self.plain(LaunchAction::WriteExtensionsFile);
        assert(self.view() == before + auto_start(*env));
    }
}

/// A launch without a command: its options, its steps, and that it came without a
/// command (see `after_provider`).
#[derive(PartialEq, Eq, Debug)]
pub struct AutoLaunch {
    pub options: LaunchOptions,
    pub steps: Vec<LaunchStep>,
    pub automatic: bool,
}

/// A launch without a command, by the environment alone; the window takes the size of
/// the viewport that is streamed, where there is one.
pub fn auto_launch(env: &Environment, viewport: Option<(u32, u32)>) -> (r: AutoLaunch)
    ensures
        r.options.view() == (OptionsV { viewport_size: viewport, ..env_options(*env) }),
        steps_view(r.steps@) == auto_steps(*env),
        r.automatic,
{
    let mut options = launch_options_from_env(env);
    let mut s = Steps::new();
    s.add_auto_start(env, &options);
    assert(s.view() == auto_start(*env));
    let ghost start = s.view();
    match auto_route(env) {
        Route::Cdp(address) => {
            s.vital(LaunchAction::ConnectCdp(address));
            s.plain(LaunchAction::ResetInput);
            assert(s.view() == start + seq![
                vital(ActionV::ConnectCdp(address@)),
                plain(ActionV::ResetInput),
            ]);
            s.add_listening();
        },
        Route::Auto => {
            s.plain(LaunchAction::ResetInput);
            s.vital(LaunchAction::ConnectAuto);
            assert(s.view() == start + seq![
                plain(ActionV::ResetInput),
                vital(ActionV::ConnectAuto),
            ]);
            s.add_listening();
        },
        Route::Provider(p) => {
            let name = p.clone();
            s.vital(LaunchAction::ConnectProvider(p));
            s.plain(LaunchAction::ResetInput);
            s.plain(LaunchAction::RememberProviderSession);
            assert(s.view() == start + seq![
                vital(ActionV::ConnectProvider(p@)),
                plain(ActionV::ResetInput),
                plain(ActionV::RememberProviderSession),
            ]);
            s.add_listening();
            let ghost before = s.view();
            s.plain(LaunchAction::WriteProviderFile(name));
            assert(s.view() == before + seq![plain(ActionV::WriteProviderFile(p@))]);
        },
        _ => {
            s.vital(LaunchAction::ApplyMutators);
            s.plain(LaunchAction::WriteExtensionsFileFromOptions);
            s.vital(LaunchAction::LaunchLocal(env.var("AGENT_BROWSER_ENGINE")));
            s.plain(LaunchAction::ResetInput);
            s.plain(LaunchAction::RememberLaunchHash);
            assert(s.view() == start + seq![
                vital(ActionV::ApplyMutators),
                plain(ActionV::WriteExtensionsFileFromOptions),
                vital(ActionV::LaunchLocal(env.value("AGENT_BROWSER_ENGINE"@))),
                plain(ActionV::ResetInput),
                plain(ActionV::RememberLaunchHash),
            ]);
            s.add_listening();
            s.add_interception(false, options.proxy_username.is_some());
        },
    }
    match &options.storage_state {
        Some(path) => s.add_best_effort(Some(path.as_str())),
        None => s.add_best_effort(None),
    }
    options.viewport_size = viewport;
    AutoLaunch { options, steps: s.list, automatic: true }
}

/// What follows a step: the next one, the end with an error, or the end with an error
/// once the browser is closed again.
#[derive(PartialEq, Eq, Debug)]
pub enum AfterStep {
    Next,
    Stop(String),
    RollBack(String),
}

/// What follows a step with the given outcome.
pub fn after_step(on_failure: OnFailure, result: Result<(), String>) -> (r: AfterStep)
    ensures
        match result {
            Ok(_) => r is Next,
            Err(e) => match on_failure {
                OnFailure::Ignore => r is Next,
                OnFailure::Abort => r matches AfterStep::Stop(m) && m@ == e@,
                OnFailure::RollBack => r matches AfterStep::RollBack(m) && m@ == e@,
            },
        },
{
    match result {
        Ok(_) => AfterStep::Next,
        Err(e) => match on_failure {
            OnFailure::Ignore => AfterStep::Next,
            OnFailure::Abort => AfterStep::Stop(e),
            OnFailure::RollBack => AfterStep::RollBack(e),
        },
    }
}

/// The error of a launch that was undone: that of the step, and that of undoing it where
/// that has failed too.
pub open spec fn undone_error(error: Seq<char>, close_error: Option<Seq<char>>) -> Seq<char> {
    match close_error {
        Some(c) => error + " (also failed to roll back browser after launch: "@ + c + ")"@,
        None => error,
    }
}

/// The error of a launch that was undone, with the given outcome of closing the browser.
pub fn rollback_error(error: String, closed: Result<(), String>) -> (r: String)
    ensures
        r@ == undone_error(
            error@,
            match closed {
                Ok(_) => None,
                Err(c) => Some(c@),
            },
        ),
{
    match closed {
        Ok(_) => error,
        Err(c) => {
            let mut m = error;
            m.append(" (also failed to roll back browser after launch: ");
            m.append(c.as_str());
            m.append(")");
            m
        },
    }
}

/// The session to load storage into: the active one. Without one nothing is loaded.
pub fn storage_session(browser: &Browser) -> (r: Option<String>)
    ensures
        opt_string(r) == match browser.session_view() {
            Ok(s) => Some(s),
            Err(_) => None,
        },
{
    match browser.session() {
        Ok(s) => Some(s),
        Err(_) => None,
    }
}

/// The session whose saved state is restored: the one with a name that is not empty.
pub fn restore_name(session_name: Option<&str>) -> (r: Option<String>)
    ensures
        opt_string(r) == match opt_str(session_name) {
            Some(n) => if n.len() > 0 {
                Some(n)
            } else {
                None
            },
            None => None,
        },
{
    match session_name {
        Some(n) => if n.is_empty() {
            None
        } else {
            Some(n.to_owned())
        },
        None => None,
    }
}

/// What an automatic connection does, one thing at a time: it reaches a browser that
/// runs, opens a tab there, asks for the session of that tab, and brings the tab to the
/// front.
#[derive(Clone, Copy, PartialEq, Eq, Structural, Debug)]
pub enum TabAction {
    Connect,
    OpenTab,
    FindSession,
    BringToFront,
}

/// A step of an automatic connection.
#[derive(Clone, Copy, PartialEq, Eq, Structural, Debug)]
pub struct TabStep {
    pub action: TabAction,
    pub on_failure: OnFailure,
}

/// The steps of an automatic connection, which are those of `ActionV::ConnectAuto`. Only
/// bringing the tab to the front may fail.
pub open spec fn fresh_tab_steps() -> Seq<TabStep> {
    seq![
        TabStep { action: TabAction::Connect, on_failure: OnFailure::Abort },
        TabStep { action: TabAction::OpenTab, on_failure: OnFailure::Abort },
        TabStep { action: TabAction::FindSession, on_failure: OnFailure::Abort },
        TabStep { action: TabAction::BringToFront, on_failure: OnFailure::Ignore },
    ]
}

/// The steps of an automatic connection.
pub fn connect_auto_with_fresh_tab() -> (r: Vec<TabStep>)
    ensures
        r@ == fresh_tab_steps(),
{
    let mut list: Vec<TabStep> = Vec::new();
    list.push(TabStep { action: TabAction::Connect, on_failure: OnFailure::Abort });
    list.push(TabStep { action: TabAction::OpenTab, on_failure: OnFailure::Abort });
    list.push(TabStep { action: TabAction::FindSession, on_failure: OnFailure::Abort });
    list.push(TabStep { action: TabAction::BringToFront, on_failure: OnFailure::Ignore });
    assert(list@ == fresh_tab_steps());
    list
}

/// The command that brings the fresh tab of an automatic connection to the front.
pub fn bring_to_front(session: &str) -> (r: CdpCommand)
    ensures
        r.view() == bare_command("Page.bringToFront"@, session@),
{
    CdpCommand::bare("Page.bringToFront", session)
}

/// A script to run on every page before its own: the hook for React, one from a file,
/// or one whose text is here. A feature that is not known is only warned of.
#[derive(PartialEq, Eq, Debug)]
pub enum InitScript {
    ReactHook,
    Unknown(String),
    File(String),
    Source(String),
}

/// The contents of an init script.
pub ghost enum ScriptV {
    ReactHook,
    Unknown(Seq<char>),
    File(Seq<char>),
    Source(Seq<char>),
}

impl InitScript {
    /// The contents of the script.
    pub open spec fn view(self) -> ScriptV {
        match self {
            InitScript::ReactHook => ScriptV::ReactHook,
            InitScript::Unknown(w) => ScriptV::Unknown(w@),
            InitScript::File(p) => ScriptV::File(p@),
            InitScript::Source(t) => ScriptV::Source(t@),
        }
    }
}

/// The contents of several init scripts.
pub open spec fn scripts_view(list: Seq<InitScript>) -> Seq<ScriptV> {
    list.map_values(|s: InitScript| s.view())
}

/// The script of a feature.
pub open spec fn feature_script(feature: Seq<char>) -> ScriptV {
    if feature == "react-devtools"@ || feature == "react"@ {
        ScriptV::ReactHook
    } else {
        ScriptV::Unknown("warning: unknown --enable feature '"@ + feature + "'"@)
    }
}

/// The items of a list in the environment; none where the variable is not set.
pub open spec fn env_items(env: Environment, name: Seq<char>) -> Seq<Seq<char>> {
    match env.value(name) {
        Some(v) => list_items(v),
        None => Seq::<Seq<char>>::empty(),
    }
}

/// The init scripts of a launch: those of the features, then the user's files, then
/// those of the plugins.
pub open spec fn init_scripts_of(env: Environment, plugin_scripts: Seq<Seq<char>>) -> Seq<ScriptV> {
    env_items(env, "AGENT_BROWSER_ENABLE"@).map_values(|f: Seq<char>| feature_script(f))
        + env_items(env, "AGENT_BROWSER_INIT_SCRIPTS"@).map_values(
        |p: Seq<char>| ScriptV::File(p),
    ) + plugin_scripts.map_values(|t: Seq<char>| ScriptV::Source(t))
}

fn items_from_env(env: &Environment, name: &str) -> (r: Vec<String>)
    ensures
        texts(r@) == env_items(*env, name@),
{
    match env.get(name) {
        Some(v) => split_list(v),
        None => {
            let none: Vec<String> = Vec::new();
            assert(texts(none@) == Seq::<Seq<char>>::empty());
            none
        },
    }
}

fn script_for(feature: &str) -> (r: InitScript)
    ensures
        r.view() == feature_script(feature@),
{
    if same(feature, "react-devtools") || same(feature, "react") {
        InitScript::ReactHook
    } else {
        let mut m = "warning: unknown --enable feature '".to_owned();
        m.append(feature);
        m.append("'");
        InitScript::Unknown(m)
    }
}

/// The init scripts of a launch, in the order in which they are applied.
pub fn apply_launch_init_scripts(env: &Environment, plugin_scripts: &Vec<String>) -> (r: Vec<
    InitScript,
>)
    ensures
        scripts_view(r@) == init_scripts_of(*env, texts(plugin_scripts@)),
{
    let features = items_from_env(env, "AGENT_BROWSER_ENABLE");
    let files = items_from_env(env, "AGENT_BROWSER_INIT_SCRIPTS");
    let ghost a = texts(features@).map_values(|f: Seq<char>| feature_script(f));
    let ghost b = texts(files@).map_values(|p: Seq<char>| ScriptV::File(p));
    let ghost c = texts(plugin_scripts@).map_values(|t: Seq<char>| ScriptV::Source(t));
    let mut out: Vec<InitScript> = Vec::new();
    assert(scripts_view(out@) == a.take(0));
    for i in 0..features.len()
        invariant
            a == texts(features@).map_values(|f: Seq<char>| feature_script(f)),
            scripts_view(out@) == a.take(i as int),
    {
        let ghost before = scripts_view(out@);
        let s = script_for(&features[i]);
        out.push(s);
        assert(scripts_view(out@) == before.push(s.view()));
        assert(a.take(i + 1) == a.take(i as int).push(a[i as int]));
    }
    assert(scripts_view(out@) == a + b.take(0));
    for i in 0..files.len()
        invariant
            b == texts(files@).map_values(|p: Seq<char>| ScriptV::File(p)),
            scripts_view(out@) == a + b.take(i as int),
    {
        let ghost before = scripts_view(out@);
        let s = InitScript::File(files[i].clone());
        out.push(s);
        assert(scripts_view(out@) == before.push(s.view()));
        assert(scripts_view(out@) == a + b.take(i + 1));
    }
    assert(scripts_view(out@) == a + b + c.take(0));
    for i in 0..plugin_scripts.len()
        invariant
            c == texts(plugin_scripts@).map_values(|t: Seq<char>| ScriptV::Source(t)),
            scripts_view(out@) == a + b + c.take(i as int),
    {
        let ghost before = scripts_view(out@);
        let s = InitScript::Source(plugin_scripts[i].clone());
        out.push(s);
        assert(scripts_view(out@) == before.push(s.view()));
        assert(scripts_view(out@) == a + b + c.take(i + 1));
    }
    assert(a + b + c.take(plugin_scripts@.len() as int) == a + b + c);
    out
}

/// The warning that an init script cannot be read.
pub fn unread_script_warning(path: &str, error: &str) -> (r: String)
    ensures
        r@ == "warning: failed to read --init-script '"@ + path@ + "': "@ + error@,
{
    let mut m = "warning: failed to read --init-script '".to_owned();
    m.append(path);
    m.append("': ");
    m.append(error);
    m
}

/// How to reach the browser of a provider: its page itself, with extra headers, or
/// plainly.
#[derive(Clone, Copy, PartialEq, Eq, Structural, Debug)]
pub enum ConnectMode {
    Direct,
    WithHeaders,
    Plain,
}

/// How to reach the browser of a provider.
pub fn connect_mode(direct_page: bool, has_headers: bool) -> (r: ConnectMode)
    ensures
        r == if direct_page {
            ConnectMode::Direct
        } else if has_headers {
            ConnectMode::WithHeaders
        } else {
            ConnectMode::Plain
        },
{
    if direct_page {
        ConnectMode::Direct
    } else if has_headers {
        ConnectMode::WithHeaders
    } else {
        ConnectMode::Plain
    }
}

/// Whether a provider hands out extra headers for the connection.
pub fn has_own_headers(provider: &str) -> (r: bool)
    ensures
        r == equal_ignoring_case(provider@, "agentcore"@),
{
    same_ignoring_case(provider, "agentcore")
}

/// The error of a launch without a command whose provider cannot be reached.
pub fn provider_error(provider: &str, error: &str) -> (r: String)
    ensures
        r@ == "Provider '"@ + provider@ + "' connection failed: "@ + error@,
{
    let mut m = "Provider '".to_owned();
    m.append(provider);
    m.append("' connection failed: ");
    m.append(error);
    m
}

/// What follows the attempt to reach the browser of a provider: the launch goes on, it
/// ends with an error once the session that the provider has opened is closed again, or
/// it ends with an error at once.
#[derive(PartialEq, Eq, Debug)]
pub enum AfterProvider {
    Connected,
    Close { session: String, error: String },
    Stop(String),
}

/// The error of a launch that cannot reach the browser of its provider: a launch without
/// a command names the provider, a launch by command does not.
pub open spec fn connection_error(
    automatic: bool,
    provider: Seq<char>,
    error: Seq<char>,
) -> Seq<char> {
    if automatic {
        "Provider '"@ + provider + "' connection failed: "@ + error
    } else {
        error
    }
}

/// What follows the attempt to reach the browser of a provider, in a launch with or
/// without a command, given the session that the provider has opened. No session is left
/// behind.
pub fn after_provider(
    automatic: bool,
    provider: &str,
    session: Option<String>,
    result: Result<(), String>,
) -> (r: AfterProvider)
    ensures
        match result {
            Ok(_) => r is Connected,
            Err(e) => match session {
                Some(s) => r matches AfterProvider::Close { session: c, error: m } && c@ == s@
                    && m@ == connection_error(automatic, provider@, e@),
                None => r matches AfterProvider::Stop(m) && m@ == connection_error(
                    automatic,
                    provider@,
                    e@,
                ),
            },
        },
{
    match result {
        Ok(_) => AfterProvider::Connected,
        Err(e) => {
            let error = if automatic {
                provider_error(provider, &e)
            } else {
                e
            };
            match session {
                Some(session) => AfterProvider::Close { session, error },
                None => AfterProvider::Stop(error),
            }
        },
    }
}

/// The answer to a launch command: whether the browser that was there was kept.
pub open spec fn launched(kept: bool) -> JsonV {
    if kept {
        JsonV::Object(seq![("launched"@, JsonV::Bool(true)), ("reused"@, JsonV::Bool(true))])
    } else {
        JsonV::Object(seq![("launched"@, JsonV::Bool(true))])
    }
}

/// The answer to a launch command.
pub fn launch_reply(kept: bool) -> (r: Json)
    ensures
        r.view() == launched(kept),
{
    let f = Fields::new().with("launched", Json::truth(true));
    let f = if kept {
        f.with("reused", Json::truth(true))
    } else {
        f
    };
    assert(f.view() == launched(kept)->Object_0);
    f.done()
}

/// The answer to a launch by a provider: with the session and the live view of an
/// AgentCore browser, or else with what the provider tells of itself, if anything.
pub open spec fn provider_answer(
    provider: Seq<char>,
    agentcore: Option<(JsonV, JsonV)>,
    metadata: Option<JsonV>,
) -> JsonV {
    let start = seq![("launched"@, JsonV::Bool(true)), ("provider"@, JsonV::Str(provider))];
    match agentcore {
        Some((session, view)) => JsonV::Object(
            start.push(("agentCoreSessionId"@, session)).push(("agentCoreLiveViewUrl"@, view)),
        ),
        None => match metadata {
            Some(m) => JsonV::Object(start.push(("providerMetadata"@, m))),
            None => JsonV::Object(start),
        },
    }
}

/// The answer to a launch by a provider.
pub fn provider_reply(provider: &str, agentcore: Option<(Json, Json)>, metadata: Option<Json>) -> (r:
    Json)
    ensures
        r.view() == provider_answer(
            provider@,
            match agentcore {
                Some((session, view)) => Some((session.view(), view.view())),
                None => None,
            },
            match metadata {
                Some(m) => Some(m.view()),
                None => None,
            },
        ),
{
    let f = Fields::new().with("launched", Json::truth(true)).with(
        "provider",
        Json::text(provider),
    );
    assert(f.view() == seq![
        ("launched"@, JsonV::Bool(true)),
        ("provider"@, JsonV::Str(provider@)),
    ]);
    match agentcore {
        Some((session, view)) => f.with("agentCoreSessionId", session).with(
            "agentCoreLiveViewUrl",
            view,
        ).done(),
        None => match metadata {
            Some(m) => f.with("providerMetadata", m).done(),
            None => f.done(),
        },
    }
}

/// The device that an iOS launch asks for.
#[derive(PartialEq, Eq, Debug)]
pub struct DeviceRequest {
    pub name: Option<String>,
    pub udid: Option<String>,
    pub platform_version: Option<String>,
}

/// The device that an iOS launch asks for.
pub fn device_request(cmd: &Json) -> (r: DeviceRequest)
    ensures
        opt_string(r.name) == cmd.view().str_at("deviceName"@),
        opt_string(r.udid) == cmd.view().str_at("udid"@),
        opt_string(r.platform_version) == cmd.view().str_at("platformVersion"@),
{
    DeviceRequest {
        name: owned(cmd.str_at("deviceName")),
        udid: owned(cmd.str_at("udid")),
        platform_version: owned(cmd.str_at("platformVersion")),
    }
}

/// An iOS device or simulator.
#[derive(PartialEq, Eq, Debug)]
pub struct Device {
    pub name: String,
    pub udid: String,
    pub state: String,
    pub is_real: bool,
}

/// The steps after a session on a device was created: from then on commands go to its
/// WebDriver.
pub open spec fn device_steps(provider: Seq<char>) -> Seq<StepV> {
    seq![
        plain(ActionV::UseWebDriver),
        plain(ActionV::SetEngine("safari"@)),
        plain(ActionV::WriteEngineFile),
        plain(ActionV::WriteProviderFile(provider)),
        plain(ActionV::WriteExtensionsFile),
        plain(ActionV::ResetInput),
    ]
}

fn after_session(provider: &str) -> (r: Vec<LaunchStep>)
    ensures
        steps_view(r@) == device_steps(provider@),
{
    let mut s = Steps::new();
    s.plain(LaunchAction::UseWebDriver);
    s.plain(LaunchAction::SetEngine("safari".to_owned()));
    s.plain(LaunchAction::WriteEngineFile);
    s.plain(LaunchAction::WriteProviderFile(provider.to_owned()));
    s.plain(LaunchAction::WriteExtensionsFile);
    s.plain(LaunchAction::ResetInput);
    assert(s.view() == device_steps(provider@));
    s.list
}

/// The port of the server that drives iOS devices.
pub const APPIUM_PORT: u16 = 4723;

/// A WebDriver session: the port of its server, and its id.
#[derive(PartialEq, Eq, Debug)]
pub struct DriverSession {
    pub port: u16,
    pub id: String,
}

/// The WebDriver session for the commands to an iOS device, where the one that was
/// created has an id.
pub fn ios_driver(id: Option<String>) -> (r: Option<DriverSession>)
    ensures
        match id {
            Some(s) => r matches Some(d) && d.port == APPIUM_PORT && d.id@ == s@,
            None => r is None,
        },
{
    match id {
        Some(id) => Some(DriverSession { port: APPIUM_PORT, id }),
        None => None,
    }
}

/// A launch on a device: whether its simulator has to be booted first, the steps once
/// there is a session, and the answer.
#[derive(PartialEq, Eq, Debug)]
pub struct IosLaunch {
    pub boot: bool,
    pub steps: Vec<LaunchStep>,
    pub reply: Json,
}

/// The answer to a launch on an iOS device.
pub open spec fn ios_answer(name: Seq<char>, udid: Seq<char>) -> JsonV {
    JsonV::Object(
        seq![
            ("launched"@, JsonV::Bool(true)),
            ("provider"@, JsonV::Str("ios"@)),
            ("device"@, JsonV::Str(name)),
            ("udid"@, JsonV::Str(udid)),
            ("backend"@, JsonV::Str("webdriver"@)),
        ],
    )
}

/// A launch on an iOS device. A simulator that does not run is booted.
pub fn launch_ios(device: &Device) -> (r: IosLaunch)
    ensures
        r.boot == (!device.is_real && device.state@ != "Booted"@),
        steps_view(r.steps@) == device_steps("ios"@),
        r.reply.view() == ios_answer(device.name@, device.udid@),
{
    let f = Fields::new().with("launched", Json::truth(true)).with(
        "provider",
        Json::text("ios"),
    ).with("device", Json::text(&device.name)).with("udid", Json::text(&device.udid)).with(
        "backend",
        Json::text("webdriver"),
    );
    assert(f.view() == ios_answer(device.name@, device.udid@)->Object_0);
    IosLaunch {
        boot: !device.is_real && !same(&device.state, "Booted"),
        steps: after_session("ios"),
        reply: f.done(),
    }
}

/// The port that a Safari launch asks for: the number modulo 65536; none where that is
/// zero, and any free port will do.
pub open spec fn asked_port(cmd: JsonV) -> Option<int> {
    match cmd.u64_at("port"@) {
        Some(p) => if p % 65536 == 0 {
            None
        } else {
            Some(p as int % 65536)
        },
        None => None,
    }
}

/// The port that a Safari launch asks for.
pub fn safari_port(cmd: &Json) -> (r: Option<u16>)
    ensures
        match r {
            Some(p) => asked_port(cmd.view()) == Some(p as int),
            None => asked_port(cmd.view()) is None,
        },
{
    match cmd.u64_at("port") {
        Some(p) => {
            let port: u16 = (p % 65536) as u16;
            if port > 0 {
                Some(port)
            } else {
                None
            }
        },
        None => None,
    }
}

/// The answer to a launch of Safari.
pub open spec fn safari_answer(port: u16) -> JsonV {
    JsonV::Object(
        seq![
            ("launched"@, JsonV::Bool(true)),
            ("provider"@, JsonV::Str("safari"@)),
            ("port"@, JsonV::Number(Num::Unsigned(port as u64))),
            ("backend"@, JsonV::Str("webdriver"@)),
        ],
    )
}

/// A launch of Safari: what its driver is asked for, the steps once there is a session,
/// and the answer.
#[derive(PartialEq, Eq, Debug)]
pub struct SafariLaunch {
    pub capabilities: Json,
    pub steps: Vec<LaunchStep>,
    pub reply: Json,
}

/// A launch of Safari with its driver at the given port.
pub fn launch_safari(port: u16) -> (r: SafariLaunch)
    ensures
        r.capabilities.view() == JsonV::Object(seq![("browserName"@, JsonV::Str("safari"@))]),
        steps_view(r.steps@) == device_steps("safari"@),
        r.reply.view() == safari_answer(port),
{
    let c = Fields::new().with("browserName", Json::text("safari"));
    assert(c.view() == seq![("browserName"@, JsonV::Str("safari"@))]);
    let f = Fields::new().with("launched", Json::truth(true)).with(
        "provider",
        Json::text("safari"),
    ).with("port", Json::Number(Num::Unsigned(port as u64))).with(
        "backend",
        Json::text("webdriver"),
    );
    assert(f.view() == safari_answer(port)->Object_0);
    SafariLaunch { capabilities: c.done(), steps: after_session("safari"), reply: f.done() }
}

/// The action has requests intercepted.
pub open spec fn intercepts(a: ActionV) -> bool {
    a is InstallDomainFilter || a is InstallFetchForProxy
}

/// The action leads to a browser.
pub open spec fn connects(a: ActionV) -> bool {
    a is ConnectCdp || a is ConnectAuto || a is ConnectProvider || a is LaunchIos
        || a is LaunchSafari || a is LaunchLocal
}

/// The action lets the browser be listened to.
pub open spec fn listens(a: ActionV) -> bool {
    a is SubscribeToEvents || a is StartFetchHandler || a is StartDialogHandler
        || a is UpdateStreamClient
}

/// The action needs a browser to work on.
pub open spec fn uses_browser(a: ActionV) -> bool {
    listens(a) || intercepts(a) || a is SanitizeOpenPages || a is LoadStorageState
        || a is ApplyInitScripts || a is RestoreSession || a is RememberLaunchHash
        || a is RememberProviderSession
}

/// Every step is as given.
pub open spec fn every(steps: Seq<StepV>, p: spec_fn(StepV) -> bool) -> bool {
    forall|i: int| 0 <= i < steps.len() ==> p(#[trigger] steps[i])
}

pub(crate) proof fn lemma_every_joined(a: Seq<StepV>, b: Seq<StepV>, p: spec_fn(StepV) -> bool)
    requires
        every(a, p),
        every(b, p),
    ensures
        every(a + b, p),
{
    assert forall|i: int| 0 <= i < (a + b).len() implies p(#[trigger] (a + b)[i]) by {
        if i < a.len() {
            assert((a + b)[i] == a[i]);
        } else {
            assert((a + b)[i] == b[i - a.len()]);
        }
    }
}

spec fn no_storage() -> spec_fn(StepV) -> bool {
    |s: StepV| !(s.action is LoadStorageState)
}

spec fn no_interception() -> spec_fn(StepV) -> bool {
    |s: StepV| !intercepts(s.action)
}

proof fn lemma_connection_without_storage(
    cmd: JsonV,
    env: Environment,
    o: OptionsV,
    filtered: bool,
)
    ensures
        every(connection_steps(cmd, env, o, filtered), no_storage()),
{
    assert(every(listening(), no_storage()));
    match command_way(cmd) {
        RouteV::Cdp(address) => {
            let start = seq![plain(ActionV::ResetInput), vital(ActionV::ConnectCdp(address))];
            assert(every(start, no_storage()));
            lemma_every_joined(start, listening(), no_storage());
        },
        RouteV::Auto => {
            let start = seq![plain(ActionV::ResetInput), vital(ActionV::ConnectAuto)];
            assert(every(start, no_storage()));
            lemma_every_joined(start, listening(), no_storage());
        },
        RouteV::Provider(p) => {
            let start = seq![
                vital(ActionV::ConnectProvider(p)),
                plain(ActionV::ResetInput),
                plain(ActionV::RememberProviderSession),
            ];
            let file = seq![plain(ActionV::WriteProviderFile(p))];
            assert(every(start, no_storage()));
            assert(every(file, no_storage()));
            lemma_every_joined(start, listening(), no_storage());
            lemma_every_joined(start + listening(), file, no_storage());
        },
        RouteV::Local => {
            let local = local_steps(engine_of(cmd, env));
            let middle = interception_steps(
                filtered || cmd.str_at("allowedDomains"@) is Some,
                o.proxy_username is Some,
            );
            let a = credential_steps(o);
            let b = a + filter_steps(cmd);
            assert(every(a, no_storage()));
            assert(every(filter_steps(cmd), no_storage()));
            assert(every(local, no_storage()));
            assert(every(middle, no_storage()));
            lemma_every_joined(a, filter_steps(cmd), no_storage());
            lemma_every_joined(b, local, no_storage());
            lemma_every_joined(b + local, listening(), no_storage());
            lemma_every_joined(b + local + listening(), middle, no_storage());
        },
        _ => {},
    }
}

/// The steps to a browser end with those of an interception, if there is one, and none
/// before them has requests intercepted.
proof fn lemma_connection_parts(cmd: JsonV, env: Environment, o: OptionsV, filtered: bool) -> (r: (
    Seq<StepV>,
    Seq<StepV>,
))
    ensures
        connection_steps(cmd, env, o, filtered) == r.0 + r.1,
        every(r.0, no_interception()),
        r.1 == if command_way(cmd) is Local {
            interception_steps(
                filtered || cmd.str_at("allowedDomains"@) is Some,
                o.proxy_username is Some,
            )
        } else {
            Seq::<StepV>::empty()
        },
{
    let none = Seq::<StepV>::empty();
    let all = connection_steps(cmd, env, o, filtered);
    assert(every(listening(), no_interception()));
    match command_way(cmd) {
        RouteV::Local => {
            let local = local_steps(engine_of(cmd, env));
            let middle = interception_steps(
                filtered || cmd.str_at("allowedDomains"@) is Some,
                o.proxy_username is Some,
            );
            let a = credential_steps(o);
            let b = a + filter_steps(cmd);
            assert(every(a, no_interception()));
            assert(every(filter_steps(cmd), no_interception()));
            assert(every(local, no_interception()));
            lemma_every_joined(a, filter_steps(cmd), no_interception());
            lemma_every_joined(b, local, no_interception());
            lemma_every_joined(b + local, listening(), no_interception());
            assert(all == b + local + listening() + middle);
            (b + local + listening(), middle)
        },
        RouteV::Provider(p) => {
            let start = seq![
                vital(ActionV::ConnectProvider(p)),
                plain(ActionV::ResetInput),
                plain(ActionV::RememberProviderSession),
            ];
            let file = seq![plain(ActionV::WriteProviderFile(p))];
            assert(every(start, no_interception()));
            assert(every(file, no_interception()));
            lemma_every_joined(start, listening(), no_interception());
            lemma_every_joined(start + listening(), file, no_interception());
            assert(all == all + none);
            (all, none)
        },
        RouteV::Cdp(address) => {
            let start = seq![plain(ActionV::ResetInput), vital(ActionV::ConnectCdp(address))];
            assert(every(start, no_interception()));
            lemma_every_joined(start, listening(), no_interception());
            assert(all == all + none);
            (all, none)
        },
        RouteV::Auto => {
            let start = seq![plain(ActionV::ResetInput), vital(ActionV::ConnectAuto)];
            assert(every(start, no_interception()));
            lemma_every_joined(start, listening(), no_interception());
            assert(all == all + none);
            (all, none)
        },
        _ => {
            assert(every(all, no_interception()));
            assert(all == all + none);
            (all, none)
        },
    }
}

/// What a launch command that does not keep the browser does before storage is loaded.
spec fn before_storage(
    cmd: JsonV,
    env: Environment,
    o: OptionsV,
    has_old: bool,
    filtered: bool,
) -> Seq<StepV> {
    clearing_steps(has_old, command_way(cmd) is Cdp) + connection_steps(cmd, env, o, filtered)
}

/// What it does from there on.
spec fn from_storage(cmd: JsonV) -> Seq<StepV> {
    if command_way(cmd) is Ios || command_way(cmd) is Safari {
        Seq::<StepV>::empty()
    } else {
        closing_steps(cmd)
    }
}

proof fn lemma_launch_halves(
    cmd: JsonV,
    env: Environment,
    o: OptionsV,
    has_old: bool,
    filtered: bool,
)
    ensures
        launch_steps(cmd, env, o, false, has_old, filtered) == before_storage(
            cmd,
            env,
            o,
            has_old,
            filtered,
        ) + from_storage(cmd),
        every(before_storage(cmd, env, o, has_old, filtered), no_storage()),
        every(from_storage(cmd), no_interception()),
{
    let clearing = clearing_steps(has_old, command_way(cmd) is Cdp);
    let connection = connection_steps(cmd, env, o, filtered);
    assert(every(clearing, no_storage()));
    lemma_connection_without_storage(cmd, env, o, filtered);
    lemma_every_joined(clearing, connection, no_storage());
    assert(clearing + (connection + closing_steps(cmd)) == clearing + connection + closing_steps(
        cmd,
    ));
    assert(clearing + connection == clearing + connection + Seq::<StepV>::empty());
    let storage = storage_steps(cmd.str_at("storageState"@), OnFailure::RollBack);
    let scripts = seq![plain(ActionV::ApplyInitScripts)];
    assert(every(storage, no_interception()));
    assert(every(scripts, no_interception()));
    lemma_every_joined(storage, scripts, no_interception());
}

/// The place of the step that has requests intercepted, where there is one.
spec fn interception_place(
    cmd: JsonV,
    env: Environment,
    o: OptionsV,
    has_old: bool,
    filtered: bool,
) -> int {
    before_storage(cmd, env, o, has_old, filtered).len() - interception_steps(
        filtered || cmd.str_at("allowedDomains"@) is Some,
        o.proxy_username is Some,
    ).len()
}

/// Requests are intercepted at that place only, and the steps of the interception stand
/// there, before storage is loaded.
proof fn lemma_interception_place(
    cmd: JsonV,
    env: Environment,
    o: OptionsV,
    has_old: bool,
    filtered: bool,
    i: int,
)
    requires
        0 <= i < launch_steps(cmd, env, o, false, has_old, filtered).len(),
        intercepts(launch_steps(cmd, env, o, false, has_old, filtered)[i].action),
    ensures
        command_way(cmd) is Local,
        i == interception_place(cmd, env, o, has_old, filtered),
        i < before_storage(cmd, env, o, has_old, filtered).len(),
        before_storage(cmd, env, o, has_old, filtered).skip(i) == interception_steps(
            filtered || cmd.str_at("allowedDomains"@) is Some,
            o.proxy_username is Some,
        ),
{
    lemma_launch_halves(cmd, env, o, has_old, filtered);
    let first = before_storage(cmd, env, o, has_old, filtered);
    let second = from_storage(cmd);
    let all = first + second;
    let clearing = clearing_steps(has_old, command_way(cmd) is Cdp);
    let middle = interception_steps(
        filtered || cmd.str_at("allowedDomains"@) is Some,
        o.proxy_username is Some,
    );
    let (front, end) = lemma_connection_parts(cmd, env, o, filtered);
    assert(every(clearing, no_interception()));
    lemma_every_joined(clearing, front, no_interception());
    assert(first == clearing + front + end);
    if i >= first.len() {
        assert(all[i] == second[i - first.len()]);
    } else if i < (clearing + front).len() {
        assert(all[i] == (clearing + front)[i]);
    } else {
        assert(all[i] == end[i - (clearing + front).len()]);
        assert(end == middle);
        assert(i == (clearing + front).len());
        assert(first.skip(i) == middle);
    }
}

/// Requests are intercepted by one step at most, so that none undoes what another has
/// asked for.
pub proof fn law_interception_is_installed_once(
    cmd: JsonV,
    env: Environment,
    o: OptionsV,
    keep: bool,
    has_old: bool,
    filtered: bool,
    i: int,
    j: int,
)
    requires
        0 <= i < launch_steps(cmd, env, o, keep, has_old, filtered).len(),
        0 <= j < launch_steps(cmd, env, o, keep, has_old, filtered).len(),
        intercepts(launch_steps(cmd, env, o, keep, has_old, filtered)[i].action),
        intercepts(launch_steps(cmd, env, o, keep, has_old, filtered)[j].action),
    ensures
        i == j,
{
    if !keep {
        lemma_interception_place(cmd, env, o, has_old, filtered, i);
        lemma_interception_place(cmd, env, o, has_old, filtered, j);
    }
}

/// Storage is loaded only once requests are intercepted, so that the pages that are
/// visited for it are under the same rules as any other.
pub proof fn law_storage_follows_interception(
    cmd: JsonV,
    env: Environment,
    o: OptionsV,
    keep: bool,
    has_old: bool,
    filtered: bool,
    i: int,
    j: int,
)
    requires
        0 <= i < launch_steps(cmd, env, o, keep, has_old, filtered).len(),
        0 <= j < launch_steps(cmd, env, o, keep, has_old, filtered).len(),
        intercepts(launch_steps(cmd, env, o, keep, has_old, filtered)[i].action),
        launch_steps(cmd, env, o, keep, has_old, filtered)[j].action is LoadStorageState,
    ensures
        i < j,
{
    if !keep {
        lemma_interception_place(cmd, env, o, has_old, filtered, i);
        lemma_launch_halves(cmd, env, o, has_old, filtered);
        let first = before_storage(cmd, env, o, has_old, filtered);
        if j < first.len() {
            assert((first + from_storage(cmd))[j] == first[j]);
        }
    }
}

/// Where a domain filter is installed, the pages that are open already are brought under
/// it at once.
#[verifier::rlimit(30)]
pub proof fn law_open_pages_come_under_the_filter(
    cmd: JsonV,
    env: Environment,
    o: OptionsV,
    keep: bool,
    has_old: bool,
    filtered: bool,
    i: int,
)
    requires
        0 <= i < launch_steps(cmd, env, o, keep, has_old, filtered).len(),
        launch_steps(cmd, env, o, keep, has_old, filtered)[i].action is InstallDomainFilter,
    ensures
        i + 1 < launch_steps(cmd, env, o, keep, has_old, filtered).len(),
        launch_steps(cmd, env, o, keep, has_old, filtered)[i + 1].action is SanitizeOpenPages,
{
    if !keep {
        lemma_interception_place(cmd, env, o, has_old, filtered, i);
        lemma_launch_halves(cmd, env, o, has_old, filtered);
        let first = before_storage(cmd, env, o, has_old, filtered);
        let all = first + from_storage(cmd);
        let middle = first.skip(i);
        assert(all[i] == first[i]);
        assert(middle[0] == first[i]);
        assert(middle.len() == 2);
        assert(middle[1] == first[i + 1]);
        assert(all[i + 1] == first[i + 1]);
    }
}

/// A launch command does not pass over storage that cannot be loaded: the launch fails,
/// and a browser that was launched for it is closed again.
pub proof fn law_launch_surfaces_storage_errors(
    cmd: JsonV,
    env: Environment,
    o: OptionsV,
    keep: bool,
    has_old: bool,
    filtered: bool,
    i: int,
)
    requires
        0 <= i < launch_steps(cmd, env, o, keep, has_old, filtered).len(),
        launch_steps(cmd, env, o, keep, has_old, filtered)[i].action is LoadStorageState,
    ensures
        launch_steps(cmd, env, o, keep, has_old, filtered)[i].on_failure == if keep {
            OnFailure::Abort
        } else {
            OnFailure::RollBack
        },
{
    if !keep {
        lemma_launch_halves(cmd, env, o, has_old, filtered);
        let first = before_storage(cmd, env, o, has_old, filtered);
        let second = from_storage(cmd);
        if i < first.len() {
            assert((first + second)[i] == first[i]);
        } else {
            assert((first + second)[i] == second[i - first.len()]);
        }
    }
}

/// A step at the given place leads to a browser, no other does, and no step before it
/// needs one.
pub open spec fn reached_at(steps: Seq<StepV>, c: int) -> bool {
    &&& 0 <= c < steps.len()
    &&& connects(steps[c].action)
    &&& steps[c].on_failure == OnFailure::Abort
    &&& forall|i: int|
        0 <= i < steps.len() && i != c ==> !connects((#[trigger] steps[i]).action)
    &&& forall|i: int| 0 <= i < c ==> !uses_browser((#[trigger] steps[i]).action)
}

/// Steps before and behind, none of which connects, and none of those before needs a
/// browser, leave the place of the connection what it is.
proof fn lemma_reached(front: Seq<StepV>, step: StepV, back: Seq<StepV>)
    requires
        every(front, unconnected()),
        connects(step.action),
        step.on_failure == OnFailure::Abort,
        every(back, no_connection()),
    ensures
        reached_at(front + seq![step] + back, front.len() as int),
{
    let all = front + seq![step] + back;
    assert forall|i: int| 0 <= i < all.len() && i != front.len() implies !connects(
        (#[trigger] all[i]).action,
    ) by {
        if i < front.len() {
            assert(all[i] == front[i]);
        } else {
            assert(all[i] == back[i - front.len() - 1]);
        }
    }
    assert forall|i: int| 0 <= i < front.len() implies !uses_browser(
        (#[trigger] all[i]).action,
    ) by {
        assert(all[i] == front[i]);
    }
}

spec fn unconnected() -> spec_fn(StepV) -> bool {
    |s: StepV| !connects(s.action) && !uses_browser(s.action)
}

spec fn no_connection() -> spec_fn(StepV) -> bool {
    |s: StepV| !connects(s.action)
}

proof fn lemma_connection_reached(
    cmd: JsonV,
    env: Environment,
    o: OptionsV,
    filtered: bool,
    before: Seq<StepV>,
    after: Seq<StepV>,
) -> (c: int)
    requires
        every(before, unconnected()),
        every(after, no_connection()),
    ensures
        reached_at(before + connection_steps(cmd, env, o, filtered) + after, c),
{
    let all = connection_steps(cmd, env, o, filtered);
    let reset = seq![plain(ActionV::ResetInput)];
    assert(every(reset, unconnected()));
    assert(every(listening(), no_connection()));
    lemma_every_joined(before, reset, unconnected());
    lemma_every_joined(listening(), after, no_connection());
    match command_way(cmd) {
        RouteV::Cdp(address) => {
            let step = vital(ActionV::ConnectCdp(address));
            assert(before + all + after == (before + reset) + seq![step] + (listening() + after));
            lemma_reached(before + reset, step, listening() + after);
            (before + reset).len() as int
        },
        RouteV::Auto => {
            let step = vital(ActionV::ConnectAuto);
            assert(before + all + after == (before + reset) + seq![step] + (listening() + after));
            lemma_reached(before + reset, step, listening() + after);
            (before + reset).len() as int
        },
        RouteV::Ios => {
            let step = vital(ActionV::LaunchIos);
            lemma_reached(before, step, after);
            before.len() as int
        },
        RouteV::Safari => {
            let step = vital(ActionV::LaunchSafari);
            lemma_reached(before, step, after);
            before.len() as int
        },
        RouteV::Provider(p) => {
            let step = vital(ActionV::ConnectProvider(p));
            let two = seq![
                plain(ActionV::ResetInput),
                plain(ActionV::RememberProviderSession),
            ];
            let file = seq![plain(ActionV::WriteProviderFile(p))];
            let back = two + listening() + file + after;
            assert(every(two, no_connection()));
            assert(every(file, no_connection()));
            lemma_every_joined(two, listening(), no_connection());
            lemma_every_joined(two + listening(), file, no_connection());
            lemma_every_joined(two + listening() + file, after, no_connection());
            assert(before + all + after == before + seq![step] + back);
            lemma_reached(before, step, back);
            before.len() as int
        },
        RouteV::Local => {
            let four = local_steps(engine_of(cmd, env)).take(4);
            let step = vital(ActionV::LaunchLocal(engine_of(cmd, env)));
            let hash = seq![plain(ActionV::RememberLaunchHash)];
            assert(local_steps(engine_of(cmd, env)) == four + seq![step] + hash);
            let middle = interception_steps(
                filtered || cmd.str_at("allowedDomains"@) is Some,
                o.proxy_username is Some,
            );
            let a = before + credential_steps(o);
            let b = a + filter_steps(cmd);
            let back = hash + listening() + middle + after;
            assert(every(credential_steps(o), unconnected()));
            assert(every(filter_steps(cmd), unconnected()));
            assert(every(four, unconnected()));
            lemma_every_joined(before, credential_steps(o), unconnected());
            lemma_every_joined(a, filter_steps(cmd), unconnected());
            lemma_every_joined(b, four, unconnected());
            assert(every(hash, no_connection()));
            assert(every(middle, no_connection()));
            lemma_every_joined(hash, listening(), no_connection());
            lemma_every_joined(hash + listening(), middle, no_connection());
            lemma_every_joined(hash + listening() + middle, after, no_connection());
            assert(before + all + after == (b + four) + seq![step] + back);
            lemma_reached(b + four, step, back);
            (b + four).len() as int
        },
    }
}

/// A launch command that does not keep the browser leads to one browser, by a step
/// whose failure ends the launch, and what needs a browser comes after that step.
pub proof fn law_launch_reaches_one_browser(
    cmd: JsonV,
    env: Environment,
    o: OptionsV,
    has_old: bool,
    filtered: bool,
)
    ensures
        exists|c: int|
            #[trigger] reached_at(launch_steps(cmd, env, o, false, has_old, filtered), c),
{
    lemma_launch_halves(cmd, env, o, has_old, filtered);
    assert(every(clearing_steps(has_old, command_way(cmd) is Cdp), unconnected()));
    let storage = storage_steps(cmd.str_at("storageState"@), OnFailure::RollBack);
    let scripts = seq![plain(ActionV::ApplyInitScripts)];
    assert(every(storage, no_connection()));
    assert(every(scripts, no_connection()));
    lemma_every_joined(storage, scripts, no_connection());
    let c = lemma_connection_reached(
        cmd,
        env,
        o,
        filtered,
        clearing_steps(has_old, command_way(cmd) is Cdp),
        from_storage(cmd),
    );
    assert(reached_at(launch_steps(cmd, env, o, false, has_old, filtered), c));
}

/// A launch without a command leads to one browser, by a step whose failure ends the
/// launch, and what needs a browser comes after that step.
pub proof fn law_auto_launch_reaches_one_browser(env: Environment)
    ensures
        exists|c: int| #[trigger] reached_at(auto_steps(env), c),
{
    let o = env_options(env);
    let all = auto_steps(env);
    let end = best_effort(o.storage_state);
    let reset = seq![plain(ActionV::ResetInput)];
    let three = seq![
        plain(ActionV::SetEngine(or_else(env.value("AGENT_BROWSER_ENGINE"@), "chrome"@))),
        plain(ActionV::WriteEngineFile),
        plain(ActionV::WriteExtensionsFile),
    ];
    let start = auto_start(env);
    assert(every(credential_steps(o), unconnected()));
    assert(every(three, unconnected()));
    lemma_every_joined(credential_steps(o), three, unconnected());
    assert(every(end, no_connection()));
    assert(every(listening(), no_connection()));
    assert(every(reset, unconnected()));
    assert(every(reset, no_connection()));
    lemma_every_joined(listening(), end, no_connection());
    match auto_way(env) {
        RouteV::Cdp(address) => {
            let step = vital(ActionV::ConnectCdp(address));
            lemma_every_joined(reset, listening() + end, no_connection());
            assert(all == start + seq![step] + (reset + (listening() + end)));
            lemma_reached(start, step, reset + (listening() + end));
        },
        RouteV::Auto => {
            let step = vital(ActionV::ConnectAuto);
            lemma_every_joined(start, reset, unconnected());
            assert(all == (start + reset) + seq![step] + (listening() + end));
            lemma_reached(start + reset, step, listening() + end);
        },
        RouteV::Provider(p) => {
            let step = vital(ActionV::ConnectProvider(p));
            let two = seq![
                plain(ActionV::ResetInput),
                plain(ActionV::RememberProviderSession),
            ];
            let file = seq![plain(ActionV::WriteProviderFile(p))];
            assert(every(two, no_connection()));
            assert(every(file, no_connection()));
            lemma_every_joined(two, listening(), no_connection());
            lemma_every_joined(two + listening(), file, no_connection());
            lemma_every_joined(two + listening() + file, end, no_connection());
            assert(all == start + seq![step] + (two + listening() + file + end));
            lemma_reached(start, step, two + listening() + file + end);
        },
        _ => {
            let step = vital(ActionV::LaunchLocal(env.value("AGENT_BROWSER_ENGINE"@)));
            let first = seq![
                vital(ActionV::ApplyMutators),
                plain(ActionV::WriteExtensionsFileFromOptions),
            ];
            let two = seq![plain(ActionV::ResetInput), plain(ActionV::RememberLaunchHash)];
            let middle = interception_steps(false, o.proxy_username is Some);
            assert(every(first, unconnected()));
            assert(every(two, no_connection()));
            assert(every(middle, no_connection()));
            lemma_every_joined(start, first, unconnected());
            lemma_every_joined(two, listening(), no_connection());
            lemma_every_joined(two + listening(), middle, no_connection());
            lemma_every_joined(two + listening() + middle, end, no_connection());
            assert(all == (start + first) + seq![step] + (two + listening() + middle + end));
            lemma_reached(start + first, step, two + listening() + middle + end);
        },
    }
}

/// Once a launch without a command has its browser, no failure takes it away: every step
/// that needs the browser may fail.
pub proof fn law_auto_launch_is_best_effort(env: Environment, i: int)
    requires
        0 <= i < auto_steps(env).len(),
        uses_browser(auto_steps(env)[i].action),
    ensures
        auto_steps(env)[i].on_failure == OnFailure::Ignore,
{
    let o = env_options(env);
    let start = auto_start(env);
    let end = best_effort(o.storage_state);
    assert(every(start, lenient()));
    assert(every(end, lenient()));
    assert(every(listening(), lenient()));
    match auto_way(env) {
        RouteV::Cdp(address) => {
            let two = seq![vital(ActionV::ConnectCdp(address)), plain(ActionV::ResetInput)];
            assert(every(two, lenient()));
            lemma_every_joined(start, two, lenient());
            lemma_every_joined(start + two, listening(), lenient());
            lemma_every_joined(start + two + listening(), end, lenient());
        },
        RouteV::Auto => {
            let two = seq![plain(ActionV::ResetInput), vital(ActionV::ConnectAuto)];
            assert(every(two, lenient()));
            lemma_every_joined(start, two, lenient());
            lemma_every_joined(start + two, listening(), lenient());
            lemma_every_joined(start + two + listening(), end, lenient());
        },
        RouteV::Provider(p) => {
            let three = seq![
                vital(ActionV::ConnectProvider(p)),
                plain(ActionV::ResetInput),
                plain(ActionV::RememberProviderSession),
            ];
            let file = seq![plain(ActionV::WriteProviderFile(p))];
            assert(every(three, lenient()));
            assert(every(file, lenient()));
            lemma_every_joined(start, three, lenient());
            lemma_every_joined(start + three, listening(), lenient());
            lemma_every_joined(start + three + listening(), file, lenient());
            lemma_every_joined(start + three + listening() + file, end, lenient());
        },
        _ => {
            let five = seq![
                vital(ActionV::ApplyMutators),
                plain(ActionV::WriteExtensionsFileFromOptions),
                vital(ActionV::LaunchLocal(env.value("AGENT_BROWSER_ENGINE"@))),
                plain(ActionV::ResetInput),
                plain(ActionV::RememberLaunchHash),
            ];
            let middle = interception_steps(false, o.proxy_username is Some);
            assert(every(five, lenient()));
            assert(every(middle, lenient()));
            lemma_every_joined(start, five, lenient());
            lemma_every_joined(start + five, listening(), lenient());
            lemma_every_joined(start + five + listening(), middle, lenient());
            lemma_every_joined(start + five + listening() + middle, end, lenient());
        },
    }
    assert(every(auto_steps(env), lenient()));
}

spec fn lenient() -> spec_fn(StepV) -> bool {
    |s: StepV| uses_browser(s.action) ==> s.on_failure == OnFailure::Ignore
}

/// A browser that is kept is neither closed nor connected to again: at most storage is
/// loaded into it.
pub proof fn law_kept_browser_is_left_alone(
    cmd: JsonV,
    env: Environment,
    o: OptionsV,
    has_old: bool,
    filtered: bool,
)
    ensures
        launch_steps(cmd, env, o, true, has_old, filtered).len() <= 1,
        every(
            launch_steps(cmd, env, o, true, has_old, filtered),
            |s: StepV| s.action is LoadStorageState,
        ),
{
}

/// A browser that is replaced is closed before anything else, and a launch that cannot
/// close it ends there.
pub proof fn law_old_browser_is_closed_first(
    cmd: JsonV,
    env: Environment,
    o: OptionsV,
    filtered: bool,
)
    ensures
        launch_steps(cmd, env, o, false, true, filtered).len() > 0,
        launch_steps(cmd, env, o, false, true, filtered)[0] == vital(ActionV::CloseBrowser),
{
    assert(clearing_steps(true, command_way(cmd) is Cdp)[0] == vital(ActionV::CloseBrowser));
}

/// Storage that is to be loaded by a launch of a local browser always gets a fresh one.
pub proof fn law_storage_gets_a_fresh_browser(old: Option<OldBrowser>, way: RouteV, new_hash: u64)
    requires
        !external(way),
    ensures
        must_replace(old, way, new_hash, true),
{
}

/// An automatic connection works in a tab of its own: it opens one once it has reached
/// the browser, and fails where it cannot. It does not fail for want of the front.
pub proof fn law_automatic_connection_has_a_fresh_tab(i: int)
    requires
        0 <= i < fresh_tab_steps().len(),
    ensures
        fresh_tab_steps()[i].action is Connect <==> i == 0,
        fresh_tab_steps()[i].action is OpenTab <==> i == 1,
        fresh_tab_steps()[i].on_failure == (if fresh_tab_steps()[i].action is BringToFront {
            OnFailure::Ignore
        } else {
            OnFailure::Abort
        }),
{
}

} // verus!
