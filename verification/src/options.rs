//! How a browser is to be launched: from the environment or from a launch command.
use vstd::prelude::*;
use vstd::string::*;

use crate::json::{
    copied_texts, opt_str, opt_string, or_else, owned, string_items, text_or_null_view,
    texts_view, Fields, Json, JsonV,
};
use crate::text::{
    ascii_lowered, pairs, pieces, same, split_trimmed, texts, to_ascii_lower, trimmed_items,
};

verus! {

/// The environment variables that hold text.
#[derive(PartialEq, Eq, Debug)]
pub struct Environment {
    pub vars: Vec<(String, String)>,
}

/// The value of the first variable with the given name.
pub open spec fn variable(vars: Seq<(Seq<char>, Seq<char>)>, name: Seq<char>) -> Option<Seq<char>>
    decreases vars.len(),
{
    if vars.len() == 0 {
        None
    } else if vars[0].0 == name {
        Some(vars[0].1)
    } else {
        variable(vars.skip(1), name)
    }
}

impl Environment {
    /// The value of a variable.
    pub open spec fn value(self, name: Seq<char>) -> Option<Seq<char>> {
        variable(pairs(self.vars@), name)
    }

    /// The value of a variable.
    pub fn get(&self, name: &str) -> (r: Option<&str>)
        ensures
            opt_str(r) == self.value(name@),
    {
        let ghost v = pairs(self.vars@);
        assert(v.skip(0) == v);
        for i in 0..self.vars.len()
            invariant
                v == pairs(self.vars@),
                variable(v, name@) == variable(v.skip(i as int), name@),
        {
            assert(v.skip(i as int)[0] == (self.vars@[i as int].0@, self.vars@[i as int].1@));
            assert(v.skip(i as int).skip(1) == v.skip(i + 1));
            if same(&self.vars[i].0, name) {
                return Some(self.vars[i].1.as_str());
            }
        }
        None
    }

    /// An owned copy of the value of a variable.
    pub fn var(&self, name: &str) -> (r: Option<String>)
        ensures
            opt_string(r) == self.value(name@),
    {
        owned(self.get(name))
    }

    /// The variable is `1` or `true`.
    pub open spec fn is_on(self, name: Seq<char>) -> bool {
        self.value(name) matches Some(v) && (v == "1"@ || v == "true"@)
    }

    fn on(&self, name: &str) -> (r: bool)
        ensures
            r == self.is_on(name@),
    {
        match self.get(name) {
            Some(v) => same(v, "1") || same(v, "true"),
            None => false,
        }
    }
}

/// The items of a list: what stands between commas and line ends, trimmed, but for
/// what is empty.
pub open spec fn list_items(text: Seq<char>) -> Seq<Seq<char>> {
    trimmed_items(pieces(text, seq![',', '\n']))
}

/// The items of a list.
pub fn split_list(text: &str) -> (r: Vec<String>)
    ensures
        texts(r@) == list_items(text@),
{
    let seps: Vec<char> = vec![',', '\n'];
    assert(seps@ == seq![',', '\n']);
    split_trimmed(text, &seps)
}

/// How a browser is to be launched.
#[derive(PartialEq, Eq, Debug)]
pub struct LaunchOptions {
    pub headless: bool,
    pub executable_path: Option<String>,
    pub proxy: Option<String>,
    pub proxy_bypass: Option<String>,
    pub proxy_username: Option<String>,
    pub proxy_password: Option<String>,
    pub profile: Option<String>,
    pub allow_file_access: bool,
    pub args: Vec<String>,
    pub extensions: Option<Vec<String>>,
    pub storage_state: Option<String>,
    pub user_agent: Option<String>,
    pub ignore_https_errors: bool,
    pub color_scheme: Option<String>,
    pub download_path: Option<String>,
    pub hide_scrollbars: bool,
    pub viewport_size: Option<(u32, u32)>,
    pub use_real_keychain: bool,
}

/// The contents of launch options.
pub ghost struct OptionsV {
    pub headless: bool,
    pub executable_path: Option<Seq<char>>,
    pub proxy: Option<Seq<char>>,
    pub proxy_bypass: Option<Seq<char>>,
    pub proxy_username: Option<Seq<char>>,
    pub proxy_password: Option<Seq<char>>,
    pub profile: Option<Seq<char>>,
    pub allow_file_access: bool,
    pub args: Seq<Seq<char>>,
    pub extensions: Option<Seq<Seq<char>>>,
    pub storage_state: Option<Seq<char>>,
    pub user_agent: Option<Seq<char>>,
    pub ignore_https_errors: bool,
    pub color_scheme: Option<Seq<char>>,
    pub download_path: Option<Seq<char>>,
    pub hide_scrollbars: bool,
    pub viewport_size: Option<(u32, u32)>,
    pub use_real_keychain: bool,
}

/// The contents of an optional list of strings.
pub open spec fn opt_texts(list: Option<Vec<String>>) -> Option<Seq<Seq<char>>> {
    match list {
        Some(list) => Some(texts(list@)),
        None => None,
    }
}

impl LaunchOptions {
    /// The contents of the options.
    pub open spec fn view(self) -> OptionsV {
        OptionsV {
            headless: self.headless,
            executable_path: opt_string(self.executable_path),
            proxy: opt_string(self.proxy),
            proxy_bypass: opt_string(self.proxy_bypass),
            proxy_username: opt_string(self.proxy_username),
            proxy_password: opt_string(self.proxy_password),
            profile: opt_string(self.profile),
            allow_file_access: self.allow_file_access,
            args: texts(self.args@),
            extensions: opt_texts(self.extensions),
            storage_state: opt_string(self.storage_state),
            user_agent: opt_string(self.user_agent),
            ignore_https_errors: self.ignore_https_errors,
            color_scheme: opt_string(self.color_scheme),
            download_path: opt_string(self.download_path),
            hide_scrollbars: self.hide_scrollbars,
            viewport_size: self.viewport_size,
            use_real_keychain: self.use_real_keychain,
        }
    }
}

/// Whether the environment has scroll bars hidden: unless it says `0`, `false`, `no` or
/// nothing, in any case.
pub open spec fn scrollbars_hidden(env: Environment) -> bool {
    match env.value("AGENT_BROWSER_HIDE_SCROLLBARS"@) {
        Some(v) => {
            let low = ascii_lowered(v);
            low != "0"@ && low != "false"@ && low != "no"@ && low.len() != 0
        },
        None => true,
    }
}

/// Whether the environment has scroll bars hidden.
pub fn hide_scrollbars_from_env(env: &Environment) -> (r: bool)
    ensures
        r == scrollbars_hidden(*env),
{
    match env.get("AGENT_BROWSER_HIDE_SCROLLBARS") {
        Some(v) => {
            let low = to_ascii_lower(v);
            !(same(&low, "0") || same(&low, "false") || same(&low, "no")
                || low.as_str().is_empty())
        },
        None => true,
    }
}

/// Whether a launch command has scroll bars hidden: as it says, or else as the
/// environment says.
pub fn hide_scrollbars_from_launch_cmd(cmd: &Json, env: &Environment) -> (r: bool)
    ensures
        r == or_else(cmd.view().bool_at("hideScrollbars"@), scrollbars_hidden(*env)),
{
    match cmd.bool_at("hideScrollbars") {
        Some(b) => b,
        None => hide_scrollbars_from_env(env),
    }
}

/// The items of an optional list.
pub open spec fn opt_list(text: Option<Seq<char>>) -> Option<Seq<Seq<char>>> {
    match text {
        Some(t) => Some(list_items(t)),
        None => None,
    }
}

/// The launch options that the environment gives.
pub open spec fn env_options(env: Environment) -> OptionsV {
    OptionsV {
        headless: !env.is_on("AGENT_BROWSER_HEADED"@),
        executable_path: env.value("AGENT_BROWSER_EXECUTABLE_PATH"@),
        proxy: env.value("AGENT_BROWSER_PROXY"@),
        proxy_bypass: env.value("AGENT_BROWSER_PROXY_BYPASS"@),
        proxy_username: env.value("AGENT_BROWSER_PROXY_USERNAME"@),
        proxy_password: env.value("AGENT_BROWSER_PROXY_PASSWORD"@),
        profile: env.value("AGENT_BROWSER_PROFILE"@),
        allow_file_access: env.is_on("AGENT_BROWSER_ALLOW_FILE_ACCESS"@),
        args: or_else(
            opt_list(env.value("AGENT_BROWSER_ARGS"@)),
            Seq::<Seq<char>>::empty(),
        ),
        extensions: opt_list(env.value("AGENT_BROWSER_EXTENSIONS"@)),
        storage_state: env.value("AGENT_BROWSER_STATE"@),
        user_agent: env.value("AGENT_BROWSER_USER_AGENT"@),
        ignore_https_errors: env.is_on("AGENT_BROWSER_IGNORE_HTTPS_ERRORS"@),
        color_scheme: env.value("AGENT_BROWSER_COLOR_SCHEME"@),
        download_path: env.value("AGENT_BROWSER_DOWNLOAD_PATH"@),
        hide_scrollbars: scrollbars_hidden(env),
        viewport_size: None,
        use_real_keychain: false,
    }
}

/// The launch options that the environment gives.
pub fn launch_options_from_env(env: &Environment) -> (r: LaunchOptions)
    ensures
        r.view() == env_options(*env),
{
    let args = match env.get("AGENT_BROWSER_ARGS") {
        Some(v) => split_list(v),
        None => {
            let none: Vec<String> = Vec::new();
            assert(texts(none@) == Seq::<Seq<char>>::empty());
            none
        },
    };
    let extensions = match env.get("AGENT_BROWSER_EXTENSIONS") {
        Some(v) => Some(split_list(v)),
        None => None,
    };
    LaunchOptions {
        headless: !env.on("AGENT_BROWSER_HEADED"),
        executable_path: env.var("AGENT_BROWSER_EXECUTABLE_PATH"),
        proxy: env.var("AGENT_BROWSER_PROXY"),
        proxy_bypass: env.var("AGENT_BROWSER_PROXY_BYPASS"),
        proxy_username: env.var("AGENT_BROWSER_PROXY_USERNAME"),
        proxy_password: env.var("AGENT_BROWSER_PROXY_PASSWORD"),
        profile: env.var("AGENT_BROWSER_PROFILE"),
        allow_file_access: env.on("AGENT_BROWSER_ALLOW_FILE_ACCESS"),
        args,
        extensions,
        storage_state: env.var("AGENT_BROWSER_STATE"),
        user_agent: env.var("AGENT_BROWSER_USER_AGENT"),
        ignore_https_errors: env.on("AGENT_BROWSER_IGNORE_HTTPS_ERRORS"),
        color_scheme: env.var("AGENT_BROWSER_COLOR_SCHEME"),
        download_path: env.var("AGENT_BROWSER_DOWNLOAD_PATH"),
        hide_scrollbars: hide_scrollbars_from_env(env),
        viewport_size: None,
        use_real_keychain: false,
    }
}

/// The first value, or the second where there is none.
pub open spec fn first_of<T>(a: Option<T>, b: Option<T>) -> Option<T> {
    match a {
        Some(_) => a,
        None => b,
    }
}

/// The string under a key of the value under another key.
pub open spec fn inner_str(v: JsonV, outer: Seq<char>, inner: Seq<char>) -> Option<Seq<char>> {
    match v.get(outer) {
        Some(o) => o.str_at(inner),
        None => None,
    }
}

/// The strings in the array under a key.
pub open spec fn strings_at(v: JsonV, key: Seq<char>) -> Option<Seq<Seq<char>>> {
    match v.get(key) {
        Some(a) => match a.as_array() {
            Some(items) => Some(string_items(items)),
            None => None,
        },
        None => None,
    }
}

/// The proxy of a launch command: a string, or an object whose `server` is one.
pub open spec fn proxy_server(cmd: JsonV) -> Option<Seq<char>> {
    first_of(cmd.str_at("proxy"@), inner_str(cmd, "proxy"@, "server"@))
}

/// The launch options of a launch command. The executable and the credentials for the
/// proxy come from the environment where the command does not give them.
pub open spec fn command_options(cmd: JsonV, env: Environment) -> OptionsV {
    OptionsV {
        headless: or_else(cmd.bool_at("headless"@), true),
        executable_path: first_of(
            cmd.str_at("executablePath"@),
            env.value("AGENT_BROWSER_EXECUTABLE_PATH"@),
        ),
        proxy: proxy_server(cmd),
        proxy_bypass: inner_str(cmd, "proxy"@, "bypass"@),
        proxy_username: first_of(
            inner_str(cmd, "proxy"@, "username"@),
            env.value("AGENT_BROWSER_PROXY_USERNAME"@),
        ),
        proxy_password: first_of(
            inner_str(cmd, "proxy"@, "password"@),
            env.value("AGENT_BROWSER_PROXY_PASSWORD"@),
        ),
        profile: cmd.str_at("profile"@),
        allow_file_access: or_else(cmd.bool_at("allowFileAccess"@), false),
        args: or_else(strings_at(cmd, "args"@), Seq::<Seq<char>>::empty()),
        extensions: strings_at(cmd, "extensions"@),
        storage_state: cmd.str_at("storageState"@),
        user_agent: cmd.str_at("userAgent"@),
        ignore_https_errors: or_else(cmd.bool_at("ignoreHTTPSErrors"@), false),
        color_scheme: cmd.str_at("colorScheme"@),
        download_path: cmd.str_at("downloadPath"@),
        hide_scrollbars: or_else(cmd.bool_at("hideScrollbars"@), scrollbars_hidden(env)),
        viewport_size: None,
        use_real_keychain: false,
    }
}

fn read_inner<'a>(v: &'a Json, outer: &str, inner: &str) -> (r: Option<&'a str>)
    ensures
        opt_str(r) == inner_str(v.view(), outer@, inner@),
{
    match v.get(outer) {
        Some(o) => o.str_at(inner),
        None => None,
    }
}

fn read_strings(v: &Json, key: &str) -> (r: Option<Vec<String>>)
    ensures
        opt_texts(r) == strings_at(v.view(), key@),
{
    match v.get(key) {
        Some(a) => a.strings(),
        None => None,
    }
}

fn first_text(a: Option<&str>, b: Option<&str>) -> (r: Option<String>)
    ensures
        opt_string(r) == first_of(opt_str(a), opt_str(b)),
{
    match a {
        Some(s) => Some(s.to_owned()),
        None => owned(b),
    }
}

fn switch(v: &Json, key: &str, default: bool) -> (r: bool)
    ensures
        r == or_else(v.view().bool_at(key@), default),
{
    match v.bool_at(key) {
        Some(b) => b,
        None => default,
    }
}

/// The launch options of a launch command.
pub fn launch_options_from_command(cmd: &Json, env: &Environment) -> (r: LaunchOptions)
    ensures
        r.view() == command_options(cmd.view(), *env),
{
    let args = match read_strings(cmd, "args") {
        Some(list) => list,
        None => {
            let none: Vec<String> = Vec::new();
            assert(texts(none@) == Seq::<Seq<char>>::empty());
            none
        },
    };
    LaunchOptions {
        headless: switch(cmd, "headless", true),
        executable_path: first_text(
            cmd.str_at("executablePath"),
            env.get("AGENT_BROWSER_EXECUTABLE_PATH"),
        ),
        proxy: first_text(cmd.str_at("proxy"), read_inner(cmd, "proxy", "server")),
        proxy_bypass: owned(read_inner(cmd, "proxy", "bypass")),
        proxy_username: first_text(
            read_inner(cmd, "proxy", "username"),
            env.get("AGENT_BROWSER_PROXY_USERNAME"),
        ),
        proxy_password: first_text(
            read_inner(cmd, "proxy", "password"),
            env.get("AGENT_BROWSER_PROXY_PASSWORD"),
        ),
        profile: owned(cmd.str_at("profile")),
        allow_file_access: switch(cmd, "allowFileAccess", false),
        args,
        extensions: read_strings(cmd, "extensions"),
        storage_state: owned(cmd.str_at("storageState")),
        user_agent: owned(cmd.str_at("userAgent")),
        ignore_https_errors: switch(cmd, "ignoreHTTPSErrors", false),
        color_scheme: owned(cmd.str_at("colorScheme")),
        download_path: owned(cmd.str_at("downloadPath")),
        hide_scrollbars: hide_scrollbars_from_launch_cmd(cmd, env),
        viewport_size: None,
        use_real_keychain: false,
    }
}

/// The name and the password for the proxy, where there is a name.
pub open spec fn credentials_of(o: OptionsV) -> Option<(Seq<char>, Seq<char>)> {
    match o.proxy_username {
        Some(user) => Some((user, or_else(o.proxy_password, Seq::<char>::empty()))),
        None => None,
    }
}

/// The name and the password for the proxy, where there is a name.
pub fn proxy_credentials(options: &LaunchOptions) -> (r: Option<(String, String)>)
    ensures
        match r {
            Some((user, password)) => credentials_of(options.view()) == Some((user@, password@)),
            None => credentials_of(options.view()) is None,
        },
{
    match &options.proxy_username {
        Some(user) => {
            let password = match &options.proxy_password {
                Some(p) => p.clone(),
                None => String::new(),
            };
            Some((user.clone(), password))
        },
        None => None,
    }
}

/// What one plugin adds to a launch.
#[derive(PartialEq, Eq, Debug)]
pub struct Mutation {
    pub args: Vec<String>,
    pub extensions: Vec<String>,
    pub user_agent: Option<String>,
    pub init_scripts: Vec<String>,
}

/// The contents of a mutation.
pub ghost struct MutationV {
    pub args: Seq<Seq<char>>,
    pub extensions: Seq<Seq<char>>,
    pub user_agent: Option<Seq<char>>,
    pub init_scripts: Seq<Seq<char>>,
}

impl Mutation {
    /// The contents of the mutation.
    pub open spec fn view(self) -> MutationV {
        MutationV {
            args: texts(self.args@),
            extensions: texts(self.extensions@),
            user_agent: opt_string(self.user_agent),
            init_scripts: texts(self.init_scripts@),
        }
    }
}

/// The contents of several mutations.
pub open spec fn mutations_view(list: Seq<Mutation>) -> Seq<MutationV> {
    list.map_values(|m: Mutation| m.view())
}

/// The options after one mutation: its arguments and extensions stand behind those that
/// were there, and its user agent takes the place of the one that was.
pub open spec fn mutated(o: OptionsV, m: MutationV) -> OptionsV {
    OptionsV {
        args: o.args + m.args,
        extensions: if m.extensions.len() == 0 {
            o.extensions
        } else {
            Some(or_else(o.extensions, Seq::<Seq<char>>::empty()) + m.extensions)
        },
        user_agent: first_of(m.user_agent, o.user_agent),
        ..o
    }
}

/// The options after several mutations, one after the other.
pub open spec fn mutated_by(o: OptionsV, list: Seq<MutationV>) -> OptionsV
    decreases list.len(),
{
    if list.len() == 0 {
        o
    } else {
        mutated(mutated_by(o, list.drop_last()), list.last())
    }
}

/// The init scripts of several mutations, in order.
pub open spec fn scripts_of(list: Seq<MutationV>) -> Seq<Seq<char>>
    decreases list.len(),
{
    if list.len() == 0 {
        Seq::<Seq<char>>::empty()
    } else {
        scripts_of(list.drop_last()) + list.last().init_scripts
    }
}

fn extend(list: &mut Vec<String>, more: &Vec<String>)
    ensures
        texts(final(list)@) == texts(old(list)@) + texts(more@),
{
    let ghost start = texts(list@);
    assert(start + texts(more@).take(0) == start);
    for i in 0..more.len()
        invariant
            texts(list@) == start + texts(more@).take(i as int),
    {
        let ghost before = texts(list@);
        list.push(more[i].clone());
        assert(texts(list@) == before.push(more@[i as int]@));
        assert(texts(more@).take(i + 1) == texts(more@).take(i as int).push(more@[i as int]@));
        assert(texts(list@) == start + texts(more@).take(i + 1));
    }
    assert(texts(more@).take(more@.len() as int) == texts(more@));
}

fn mutate(options: &mut LaunchOptions, m: &Mutation)
    ensures
        final(options).view() == mutated(old(options).view(), m.view()),
{
    extend(&mut options.args, &m.args);
    if m.extensions.len() > 0 {
        let mut list: Vec<String> = match &options.extensions {
            Some(l) => copied_texts(l),
            None => {
                let none: Vec<String> = Vec::new();
                assert(texts(none@) == Seq::<Seq<char>>::empty());
                none
            },
        };
        extend(&mut list, &m.extensions);
        options.extensions = Some(list);
    }
    match &m.user_agent {
        Some(s) => {
            options.user_agent = Some(s.clone());
        },
        None => {},
    }
}

/// Applies the mutations of the plugins to the options, in order, and gives the init
/// scripts that they bring.
pub fn apply_launch_mutator_plugins(options: &mut LaunchOptions, mutations: &Vec<Mutation>) -> (r:
    Vec<String>)
    ensures
        final(options).view() == mutated_by(old(options).view(), mutations_view(mutations@)),
        texts(r@) == scripts_of(mutations_view(mutations@)),
{
    let ghost start = options.view();
    let ghost all = mutations_view(mutations@);
    let mut scripts: Vec<String> = Vec::new();
    assert(texts(scripts@) == scripts_of(all.take(0)));
    assert(start == mutated_by(start, all.take(0)));
    for i in 0..mutations.len()
        invariant
            all == mutations_view(mutations@),
            options.view() == mutated_by(start, all.take(i as int)),
            texts(scripts@) == scripts_of(all.take(i as int)),
    {
        proof {
            assert(all.take(i + 1).drop_last() == all.take(i as int));
            assert(all.take(i + 1).last() == mutations@[i as int].view());
        }
        mutate(options, &mutations[i]);
        extend(&mut scripts, &mutations[i].init_scripts);
    }
    assert(all.take(mutations@.len() as int) == all);
    scripts
}

/// The JSON array of some strings, or `null`.
pub open spec fn texts_or_null_view(list: Option<Seq<Seq<char>>>) -> JsonV {
    match list {
        Some(list) => texts_view(list),
        None => JsonV::Null,
    }
}

/// What the plugins are told of a launch.
pub open spec fn mutator_request_of(session: Seq<char>, o: OptionsV, env: Environment) -> JsonV {
    JsonV::Object(
        seq![
            ("session"@, JsonV::Str(session)),
            (
                "launchOptions"@,
                JsonV::Object(
                    seq![
                        ("headless"@, JsonV::Bool(o.headless)),
                        (
                            "engine"@,
                            JsonV::Str(or_else(env.value("AGENT_BROWSER_ENGINE"@), "chrome"@)),
                        ),
                        ("args"@, texts_view(o.args)),
                        ("extensions"@, texts_or_null_view(o.extensions)),
                        ("userAgent"@, text_or_null_view(o.user_agent)),
                        ("colorScheme"@, text_or_null_view(o.color_scheme)),
                        ("downloadPath"@, text_or_null_view(o.download_path)),
                        ("hideScrollbars"@, JsonV::Bool(o.hide_scrollbars)),
                        ("allowFileAccess"@, JsonV::Bool(o.allow_file_access)),
                    ],
                ),
            ),
        ],
    )
}

/// What the plugins are told of a launch.
pub fn mutator_request(session: &str, options: &LaunchOptions, env: &Environment) -> (r: Json)
    ensures
        r.view() == mutator_request_of(session@, options.view(), *env),
{
    let engine = match env.get("AGENT_BROWSER_ENGINE") {
        Some(e) => e,
        None => "chrome",
    };
    let extensions = match &options.extensions {
        Some(list) => Json::texts(list),
        None => Json::Null,
    };
    let inner = Fields::new().with("headless", Json::truth(options.headless)).with(
        "engine",
        Json::text(engine),
    ).with("args", Json::texts(&options.args)).with("extensions", extensions).with(
        "userAgent",
        Json::text_or_null(&options.user_agent),
    ).with("colorScheme", Json::text_or_null(&options.color_scheme)).with(
        "downloadPath",
        Json::text_or_null(&options.download_path),
    ).with("hideScrollbars", Json::truth(options.hide_scrollbars)).with(
        "allowFileAccess",
        Json::truth(options.allow_file_access),
    );
    let ghost whole = mutator_request_of(session@, options.view(), *env)->Object_0;
    assert(inner.view() == whole[1].1->Object_0);
    let f = Fields::new().with("session", Json::text(session)).with("launchOptions", inner.done());
    assert(f.view() == whole);
    f.done()
}

/// Plugins only add to a launch: the arguments and the extensions that were there stay
/// where they were, and nothing but these and the user agent changes.
pub proof fn law_plugins_only_add(o: OptionsV, list: Seq<MutationV>)
    ensures
        o.args.is_prefix_of(mutated_by(o, list).args),
        o.extensions matches Some(e) ==> mutated_by(o, list).extensions matches Some(f)
            && e.is_prefix_of(f),
        mutated_by(o, list) == (OptionsV {
            args: mutated_by(o, list).args,
            extensions: mutated_by(o, list).extensions,
            user_agent: mutated_by(o, list).user_agent,
            ..o
        }),
    decreases list.len(),
{
    if list.len() > 0 {
        let before = mutated_by(o, list.drop_last());
        law_plugins_only_add(o, list.drop_last());
        assert(before.args.is_prefix_of(before.args + list.last().args));
    }
}

/// Without plugins the options stay as they are, and there are no init scripts.
pub proof fn law_no_plugins_change_nothing(o: OptionsV)
    ensures
        mutated_by(o, Seq::<MutationV>::empty()) == o,
        scripts_of(Seq::<MutationV>::empty()) == Seq::<Seq<char>>::empty(),
{
}

} // verus!
