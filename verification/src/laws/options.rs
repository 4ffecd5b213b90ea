//! How a browser is to be launched.
use vstd::prelude::*;
use vstd::string::*;

use crate::json::{lemma_field_found, opt_string, string_items, Json, JsonV};
use crate::options::{
    apply_launch_mutator_plugins, hide_scrollbars_from_env, hide_scrollbars_from_launch_cmd,
    launch_options_from_command, launch_options_from_env, mutated_by, mutations_view,
    mutator_request, opt_texts, proxy_credentials, scripts_of, split_list, Environment,
    LaunchOptions, Mutation, MutationV, OptionsV,
};
use crate::text::{
    ascii_lowered, is_white, law_trimmed_items_are_trimmed, pairs, pieces, texts, trimmed,
    trimmed_items,
};

verus! {

/// The variable is set to the given value, which is `1` or `true`.
pub open spec fn switched_on(env: Environment, name: Seq<char>) -> bool {
    env.value(name) == Some("1"@) || env.value(name) == Some("true"@)
}

/// The string under a key of the object under another.
pub open spec fn within(cmd: JsonV, outer: Seq<char>, inner: Seq<char>) -> Option<Seq<char>> {
    match cmd.get(outer) {
        Some(v) => v.str_at(inner),
        None => None,
    }
}

/// The value of a variable is that of the first one with its name.
pub proof fn law_variable_is_read_by_its_name(
    env: &Environment,
    name: &str,
    r: Option<&str>,
    i: int,
)
    requires
        call_ensures(Environment::get, (env, name), r),
        0 <= i < env.vars@.len(),
        env.vars@[i].0@ == name@,
        forall|j: int| 0 <= j < i ==> (#[trigger] env.vars@[j]).0@ != name@,
    ensures
        r is Some && r->Some_0@ == env.vars@[i].1@,
{
    let v = pairs(env.vars@);
    assert forall|j: int| 0 <= j < i implies (#[trigger] v[j]).0 != name@ by {
        assert(v[j].0 == env.vars@[j].0@);
    }
    assert(v[i] == (env.vars@[i].0@, env.vars@[i].1@));
    lemma_variable(v, name@, i);
}

proof fn lemma_variable(vars: Seq<(Seq<char>, Seq<char>)>, name: Seq<char>, i: int)
    requires
        0 <= i < vars.len(),
        vars[i].0 == name,
        forall|j: int| 0 <= j < i ==> (#[trigger] vars[j]).0 != name,
    ensures
        crate::options::variable(vars, name) == Some(vars[i].1),
    decreases i,
{
    if i > 0 {
        assert(vars[0].0 != name);
        let rest = vars.skip(1);
        assert forall|j: int| 0 <= j < i - 1 implies (#[trigger] rest[j]).0 != name by {
            assert(rest[j] == vars[j + 1]);
        }
        lemma_variable(rest, name, i - 1);
    }
}

/// The options of a launch command are what it says; the executable and the credentials
/// for the proxy come from the environment where it does not say.
pub proof fn law_command_gives_the_options(cmd: &Json, env: &Environment, r: LaunchOptions)
    requires
        call_ensures(launch_options_from_command, (cmd, env), r),
    ensures
        ({
            let c = cmd.view();
            &&& r.headless <==> c.bool_at("headless"@) != Some(false)
            &&& r.allow_file_access <==> c.bool_at("allowFileAccess"@) == Some(true)
            &&& r.ignore_https_errors <==> c.bool_at("ignoreHTTPSErrors"@) == Some(true)
            &&& opt_string(r.profile) == c.str_at("profile"@)
            &&& opt_string(r.storage_state) == c.str_at("storageState"@)
            &&& opt_string(r.user_agent) == c.str_at("userAgent"@)
            &&& opt_string(r.color_scheme) == c.str_at("colorScheme"@)
            &&& opt_string(r.download_path) == c.str_at("downloadPath"@)
            &&& opt_string(r.proxy_bypass) == within(c, "proxy"@, "bypass"@)
            &&& c.str_at("executablePath"@) is Some ==> opt_string(r.executable_path) == c.str_at(
                "executablePath"@,
            )
            &&& c.str_at("executablePath"@) is None ==> opt_string(r.executable_path) == env.value(
                "AGENT_BROWSER_EXECUTABLE_PATH"@,
            )
            &&& c.str_at("proxy"@) is Some ==> opt_string(r.proxy) == c.str_at("proxy"@)
            &&& c.str_at("proxy"@) is None ==> opt_string(r.proxy) == within(
                c,
                "proxy"@,
                "server"@,
            )
            &&& within(c, "proxy"@, "username"@) is Some ==> opt_string(r.proxy_username)
                == within(c, "proxy"@, "username"@)
            &&& within(c, "proxy"@, "username"@) is None ==> opt_string(r.proxy_username)
                == env.value("AGENT_BROWSER_PROXY_USERNAME"@)
            &&& within(c, "proxy"@, "password"@) is Some ==> opt_string(r.proxy_password)
                == within(c, "proxy"@, "password"@)
            &&& within(c, "proxy"@, "password"@) is None ==> opt_string(r.proxy_password)
                == env.value("AGENT_BROWSER_PROXY_PASSWORD"@)
            &&& c.bool_at("hideScrollbars"@) matches Some(b) ==> r.hide_scrollbars == b
            &&& r.viewport_size is None
            &&& !r.use_real_keychain
        }),
{
}

/// The arguments and the extensions of a launch command are the strings in its lists, and
/// no others; only with a list are there extensions at all.
pub proof fn law_command_gives_arguments_and_extensions(
    cmd: &Json,
    env: &Environment,
    r: LaunchOptions,
    x: Seq<char>,
)
    requires
        call_ensures(launch_options_from_command, (cmd, env), r),
    ensures
        texts(r.args@).contains(x) <==> (cmd.view().get("args"@) matches Some(JsonV::Array(items))
            && items.contains(JsonV::Str(x))),
        r.extensions is Some <==> (cmd.view().get("extensions"@) matches Some(JsonV::Array(_))),
        r.extensions matches Some(e) ==> (texts(e@).contains(x) <==> (cmd.view().get(
            "extensions"@,
        ) matches Some(JsonV::Array(items)) && items.contains(JsonV::Str(x)))),
{
    if let Some(JsonV::Array(items)) = cmd.view().get("args"@) {
        lemma_string_items(items, x);
    }
    if let Some(JsonV::Array(items)) = cmd.view().get("extensions"@) {
        lemma_string_items(items, x);
    }
}

/// The strings among the items are those that the list holds.
pub proof fn lemma_string_items(items: Seq<JsonV>, x: Seq<char>)
    ensures
        string_items(items).contains(x) <==> items.contains(JsonV::Str(x)),
    decreases items.len(),
{
    if items.len() > 0 {
        let before = items.drop_last();
        let list = string_items(before);
        lemma_string_items(before, x);
        let last = items.last();
        if items.contains(JsonV::Str(x)) {
            let k = choose|k: int| 0 <= k < items.len() && items[k] == JsonV::Str(x);
            if k < before.len() {
                assert(before[k] == JsonV::Str(x));
            } else {
                assert(list.push(x)[list.len() as int] == x);
            }
        }
        if before.contains(JsonV::Str(x)) {
            let k = choose|k: int| 0 <= k < before.len() && before[k] == JsonV::Str(x);
            assert(items[k] == JsonV::Str(x));
            let j = choose|j: int| 0 <= j < list.len() && list[j] == x;
            assert(string_items(items)[j] == x);
        }
        if string_items(items).contains(x) {
            let all = string_items(items);
            let j = choose|j: int| 0 <= j < all.len() && all[j] == x;
            if j < list.len() {
                assert(list[j] == x);
            } else {
                assert(items[items.len() - 1] == JsonV::Str(x));
            }
        }
    }
}

/// The options that the environment gives are what its variables say: a browser is shown
/// only where it is asked to be, and nothing is allowed that is not asked for.
pub proof fn law_environment_gives_the_options(env: &Environment, r: LaunchOptions)
    requires
        call_ensures(launch_options_from_env, (env,), r),
    ensures
        r.headless <==> !switched_on(*env, "AGENT_BROWSER_HEADED"@),
        r.allow_file_access <==> switched_on(*env, "AGENT_BROWSER_ALLOW_FILE_ACCESS"@),
        r.ignore_https_errors <==> switched_on(*env, "AGENT_BROWSER_IGNORE_HTTPS_ERRORS"@),
        opt_string(r.executable_path) == env.value("AGENT_BROWSER_EXECUTABLE_PATH"@),
        opt_string(r.proxy) == env.value("AGENT_BROWSER_PROXY"@),
        opt_string(r.proxy_bypass) == env.value("AGENT_BROWSER_PROXY_BYPASS"@),
        opt_string(r.proxy_username) == env.value("AGENT_BROWSER_PROXY_USERNAME"@),
        opt_string(r.proxy_password) == env.value("AGENT_BROWSER_PROXY_PASSWORD"@),
        opt_string(r.profile) == env.value("AGENT_BROWSER_PROFILE"@),
        opt_string(r.storage_state) == env.value("AGENT_BROWSER_STATE"@),
        opt_string(r.user_agent) == env.value("AGENT_BROWSER_USER_AGENT"@),
        opt_string(r.color_scheme) == env.value("AGENT_BROWSER_COLOR_SCHEME"@),
        opt_string(r.download_path) == env.value("AGENT_BROWSER_DOWNLOAD_PATH"@),
        env.value("AGENT_BROWSER_ARGS"@) is None ==> r.args@.len() == 0,
        r.extensions is Some <==> env.value("AGENT_BROWSER_EXTENSIONS"@) is Some,
        r.viewport_size is None,
        !r.use_real_keychain,
{
    assert(texts(r.args@).len() == r.args@.len());
    assert(opt_texts(r.extensions) is Some <==> r.extensions is Some);
}

/// The arguments and the extensions that the environment gives are the items of its
/// lists.
pub proof fn law_environment_lists_arguments_and_extensions(
    env: &Environment,
    r: LaunchOptions,
    text: &str,
    items: Vec<String>,
)
    requires
        call_ensures(launch_options_from_env, (env,), r),
        call_ensures(split_list, (text,), items),
    ensures
        env.value("AGENT_BROWSER_ARGS"@) == Some(text@) ==> texts(r.args@) == texts(items@),
        env.value("AGENT_BROWSER_EXTENSIONS"@) == Some(text@) ==> (r.extensions matches Some(e)
            && texts(e@) == texts(items@)),
{
}

/// What stands between the commas and line ends of a text.
pub open spec fn parts(text: Seq<char>) -> Seq<Seq<char>> {
    pieces(text, seq![',', '\n'])
}

/// The items of a list are what stands between commas and line ends, without the white
/// space around it, but for what is empty.
pub proof fn law_list_items_are_trimmed_pieces(text: &str, r: Vec<String>, k: int, p: Seq<char>)
    requires
        call_ensures(split_list, (text,), r),
    ensures
        0 <= k < r@.len() ==> r@[k]@.len() > 0 && !is_white(r@[k]@[0]) && !is_white(r@[k]@.last())
            && exists|j: int|
            0 <= j < parts(text@).len() && trimmed(
                #[trigger] parts(text@)[j],
            ) == r@[k]@,
        parts(text@).contains(p) && trimmed(p).len() > 0 ==> texts(
            r@,
        ).contains(trimmed(p)),
{
    let ps = parts(text@);
    if 0 <= k < r@.len() {
        assert(texts(r@)[k] == r@[k]@);
        law_trimmed_items_are_trimmed(ps, k);
        lemma_item_source(ps, k);
    }
    lemma_item_kept(ps, p);
}

/// Every item comes from one of the texts.
pub proof fn lemma_item_source(list: Seq<Seq<char>>, k: int)
    requires
        0 <= k < trimmed_items(list).len(),
    ensures
        exists|j: int|
            0 <= j < list.len() && trimmed(#[trigger] list[j]) == trimmed_items(list)[k],
    decreases list.len(),
{
    let before = trimmed_items(list.drop_last());
    if k < before.len() {
        lemma_item_source(list.drop_last(), k);
        let j = choose|j: int|
            0 <= j < list.drop_last().len() && trimmed(#[trigger] list.drop_last()[j])
                == before[k];
        assert(trimmed(list[j]) == trimmed_items(list)[k]);
    } else {
        assert(trimmed(list[list.len() - 1]) == trimmed_items(list)[k]);
    }
}

/// Every text that is not blank gives an item.
pub proof fn lemma_item_kept(list: Seq<Seq<char>>, p: Seq<char>)
    ensures
        list.contains(p) && trimmed(p).len() > 0 ==> trimmed_items(list).contains(trimmed(p)),
    decreases list.len(),
{
    if list.contains(p) && trimmed(p).len() > 0 {
        let before = trimmed_items(list.drop_last());
        let all = trimmed_items(list);
        let k = choose|k: int| 0 <= k < list.len() && list[k] == p;
        if k == list.len() - 1 {
            assert(all[before.len() as int] == trimmed(p));
        } else {
            assert(list.drop_last()[k] == p);
            lemma_item_kept(list.drop_last(), p);
            let j = choose|j: int| 0 <= j < before.len() && before[j] == trimmed(p);
            assert(all[j] == trimmed(p));
        }
    }
}

/// Scroll bars are hidden unless the environment says `0`, `false`, `no` or nothing, in
/// any case of letters.
pub proof fn law_scroll_bars_are_hidden_by_default(
    env: &Environment,
    r: bool,
    cmd: &Json,
    o: LaunchOptions,
    p: LaunchOptions,
    q: bool,
)
    requires
        call_ensures(hide_scrollbars_from_env, (env,), r),
        call_ensures(hide_scrollbars_from_launch_cmd, (cmd, env), q),
        call_ensures(launch_options_from_command, (cmd, env), o),
        call_ensures(launch_options_from_env, (env,), p),
    ensures
        env.value("AGENT_BROWSER_HIDE_SCROLLBARS"@) is None ==> r,
        env.value("AGENT_BROWSER_HIDE_SCROLLBARS"@) matches Some(v) ==> (!r <==> v.len() == 0
            || ascii_lowered(v) == "0"@ || ascii_lowered(v) == "false"@ || ascii_lowered(v)
            == "no"@),
        cmd.view().bool_at("hideScrollbars"@) is None ==> o.hide_scrollbars == r,
        p.hide_scrollbars == r,
        q == o.hide_scrollbars,
{
    if let Some(v) = env.value("AGENT_BROWSER_HIDE_SCROLLBARS"@) {
        assert(ascii_lowered(v).len() == v.len());
    }
}

/// There are credentials for the proxy where there is a user name, with an empty password
/// where there is none.
pub proof fn law_proxy_credentials_need_a_user(
    options: &LaunchOptions,
    r: Option<(String, String)>,
)
    requires
        call_ensures(proxy_credentials, (options,), r),
    ensures
        r is Some <==> options.proxy_username is Some,
        r matches Some((u, p)) ==> u@ == options.proxy_username->Some_0@ && match
            options.proxy_password {
            Some(password) => p@ == password@,
            None => p@.len() == 0,
        },
{
}

/// The arguments of several mutations, one behind the other.
pub open spec fn all_args(list: Seq<Mutation>) -> Seq<Seq<char>>
    decreases list.len(),
{
    if list.len() == 0 {
        Seq::<Seq<char>>::empty()
    } else {
        texts(list[0].args@) + all_args(list.skip(1))
    }
}

/// The extensions of several mutations, one behind the other.
pub open spec fn all_extensions(list: Seq<Mutation>) -> Seq<Seq<char>>
    decreases list.len(),
{
    if list.len() == 0 {
        Seq::<Seq<char>>::empty()
    } else {
        texts(list[0].extensions@) + all_extensions(list.skip(1))
    }
}

/// The init scripts of several mutations, one behind the other.
pub open spec fn all_scripts(list: Seq<Mutation>) -> Seq<Seq<char>>
    decreases list.len(),
{
    if list.len() == 0 {
        Seq::<Seq<char>>::empty()
    } else {
        texts(list[0].init_scripts@) + all_scripts(list.skip(1))
    }
}

proof fn lemma_mutated_front(o: OptionsV, list: Seq<MutationV>)
    requires
        list.len() > 0,
    ensures
        mutated_by(o, list) == mutated_by(crate::options::mutated(o, list[0]), list.skip(1)),
        scripts_of(list) == list[0].init_scripts + scripts_of(list.skip(1)),
    decreases list.len(),
{
    if list.len() == 1 {
        assert(list.drop_last().len() == 0);
        assert(list.skip(1).len() == 0);
        assert(scripts_of(list.drop_last()) == Seq::<Seq<char>>::empty());
        assert(scripts_of(list) == Seq::<Seq<char>>::empty() + list[0].init_scripts);
        assert(scripts_of(list) == list[0].init_scripts + Seq::<Seq<char>>::empty());
    } else {
        lemma_mutated_front(o, list.drop_last());
        assert(list.drop_last()[0] == list[0]);
        assert(list.drop_last().skip(1) == list.skip(1).drop_last());
        assert(list.skip(1).last() == list.last());
        let a = list[0].init_scripts;
        let b = scripts_of(list.skip(1).drop_last());
        let c = list.last().init_scripts;
        assert(a + b + c == a + (b + c));
    }
}

proof fn lemma_mutations(o: OptionsV, list: Seq<Mutation>)
    ensures
        mutated_by(o, mutations_view(list)).args == o.args + all_args(list),
        all_extensions(list).len() == 0 ==> mutated_by(o, mutations_view(list)).extensions
            == o.extensions,
        all_extensions(list).len() > 0 ==> mutated_by(o, mutations_view(list)).extensions == Some(
            (match o.extensions {
                Some(e) => e,
                None => Seq::<Seq<char>>::empty(),
            }) + all_extensions(list),
        ),
        (forall|i: int| 0 <= i < list.len() ==> (#[trigger] list[i]).user_agent is None)
            ==> mutated_by(o, mutations_view(list)).user_agent == o.user_agent,
        scripts_of(mutations_view(list)) == all_scripts(list),
    decreases list.len(),
{
    let v = mutations_view(list);
    if list.len() == 0 {
        assert(o.args + all_args(list) == o.args);
    } else {
        let first = list[0];
        let next = crate::options::mutated(o, v[0]);
        let rest = list.skip(1);
        assert(v[0] == first.view());
        assert(v.skip(1) == mutations_view(rest));
        lemma_mutated_front(o, v);
        lemma_mutations(next, rest);
        assert(o.args + texts(first.args@) + all_args(rest) == o.args + all_args(list));
        let own = match o.extensions {
            Some(e) => e,
            None => Seq::<Seq<char>>::empty(),
        };
        assert(own + texts(first.extensions@) + all_extensions(rest) == own + all_extensions(
            list,
        ));
        assert(own + texts(first.extensions@) + Seq::<Seq<char>>::empty() == own + texts(
            first.extensions@,
        ));
        if texts(first.extensions@).len() == 0 {
            assert(all_extensions(list) == all_extensions(rest));
        }
        if all_extensions(rest).len() == 0 {
            assert(all_extensions(list) == texts(first.extensions@));
        }
        if forall|i: int| 0 <= i < list.len() ==> (#[trigger] list[i]).user_agent is None {
            assert(list[0].user_agent is None);
            assert forall|i: int| 0 <= i < rest.len() implies (
            #[trigger] rest[i]).user_agent is None by {
                assert(rest[i] == list[i + 1]);
            }
        }
    }
}

/// Plugins add their arguments and extensions behind those that are there, in their order,
/// and bring their init scripts in their order; a launch without extensions has some only
/// where a plugin adds some.
pub proof fn law_plugins_add_in_order(
    options: &mut LaunchOptions,
    mutations: &Vec<Mutation>,
    r: Vec<String>,
)
    requires
        call_ensures(apply_launch_mutator_plugins, (options, mutations), r),
    ensures
        texts(final(options).args@) == texts(old(options).args@) + all_args(mutations@),
        texts(r@) == all_scripts(mutations@),
        all_extensions(mutations@).len() == 0 ==> opt_texts(final(options).extensions) == opt_texts(
            old(options).extensions,
        ),
        all_extensions(mutations@).len() > 0 ==> (final(options).extensions matches Some(e)
            && texts(e@) == (match old(options).extensions {
            Some(own) => texts(own@),
            None => Seq::<Seq<char>>::empty(),
        }) + all_extensions(mutations@)),
{
    lemma_mutations(old(options).view(), mutations@);
}

/// The last plugin that brings a user agent decides which one is used; without any the
/// user agent stays. Nothing but arguments, extensions and user agent changes.
pub proof fn law_last_user_agent_counts(
    options: &mut LaunchOptions,
    mutations: &Vec<Mutation>,
    r: Vec<String>,
    k: int,
)
    requires
        call_ensures(apply_launch_mutator_plugins, (options, mutations), r),
    ensures
        (forall|i: int|
            0 <= i < mutations@.len() ==> (#[trigger] mutations@[i]).user_agent is None)
            ==> opt_string(final(options).user_agent) == opt_string(old(options).user_agent),
        0 <= k < mutations@.len() && mutations@[k].user_agent is Some && (forall|i: int|
            k < i < mutations@.len() ==> (#[trigger] mutations@[i]).user_agent is None)
            ==> opt_string(final(options).user_agent) == opt_string(mutations@[k].user_agent),
        final(options).headless == old(options).headless,
        opt_string(final(options).executable_path) == opt_string(old(options).executable_path),
        opt_string(final(options).proxy) == opt_string(old(options).proxy),
        opt_string(final(options).proxy_bypass) == opt_string(old(options).proxy_bypass),
        opt_string(final(options).proxy_username) == opt_string(old(options).proxy_username),
        opt_string(final(options).proxy_password) == opt_string(old(options).proxy_password),
        opt_string(final(options).profile) == opt_string(old(options).profile),
        final(options).allow_file_access == old(options).allow_file_access,
        opt_string(final(options).storage_state) == opt_string(old(options).storage_state),
        final(options).ignore_https_errors == old(options).ignore_https_errors,
        opt_string(final(options).color_scheme) == opt_string(old(options).color_scheme),
        opt_string(final(options).download_path) == opt_string(old(options).download_path),
        final(options).hide_scrollbars == old(options).hide_scrollbars,
        final(options).viewport_size == old(options).viewport_size,
        final(options).use_real_keychain == old(options).use_real_keychain,
{
    let o = old(options).view();
    let v = mutations_view(mutations@);
    crate::options::law_plugins_only_add(o, v);
    lemma_mutations(o, mutations@);
    if 0 <= k < mutations@.len() && mutations@[k].user_agent is Some && (forall|i: int|
        k < i < mutations@.len() ==> (#[trigger] mutations@[i]).user_agent is None) {
        lemma_last_agent(o, mutations@, k);
    }
}

proof fn lemma_last_agent(o: OptionsV, list: Seq<Mutation>, k: int)
    requires
        0 <= k < list.len(),
        list[k].user_agent is Some,
        forall|i: int| k < i < list.len() ==> (#[trigger] list[i]).user_agent is None,
    ensures
        mutated_by(o, mutations_view(list)).user_agent == opt_string(list[k].user_agent),
    decreases list.len(),
{
    let v = mutations_view(list);
    let before = list.drop_last();
    assert(v.drop_last() == mutations_view(before));
    assert(v.last() == list.last().view());
    if k < list.len() - 1 {
        assert(list[list.len() - 1].user_agent is None);
        assert forall|i: int| k < i < before.len() implies (
        #[trigger] before[i]).user_agent is None by {
            assert(before[i] == list[i]);
        }
        lemma_last_agent(o, before, k);
    }
}

/// The plugins are told the session, and of the launch what they may need: whether it is
/// headless, the engine of the environment, Chrome where it names none, and the rest.
pub proof fn law_plugins_are_told_of_the_launch(
    session: &str,
    options: &LaunchOptions,
    env: &Environment,
    r: Json,
)
    requires
        call_ensures(mutator_request, (session, options, env), r),
    ensures
        r.view().str_at("session"@) == Some(session@),
        r.view().get("launchOptions"@) is Some,
        ({
            let o = r.view().get("launchOptions"@)->Some_0;
            &&& o.bool_at("headless"@) == Some(options.headless)
            &&& o.str_at("engine"@) == Some(
                match env.value("AGENT_BROWSER_ENGINE"@) {
                    Some(e) => e,
                    None => "chrome"@,
                },
            )
            &&& o.get("args"@) == Some(crate::json::texts_view(texts(options.args@)))
            &&& o.get("extensions"@) == Some(
                match options.extensions {
                    Some(e) => crate::json::texts_view(texts(e@)),
                    None => JsonV::Null,
                },
            )
            &&& o.str_at("userAgent"@) == opt_string(options.user_agent)
            &&& o.str_at("colorScheme"@) == opt_string(options.color_scheme)
            &&& o.str_at("downloadPath"@) == opt_string(options.download_path)
            &&& o.bool_at("hideScrollbars"@) == Some(options.hide_scrollbars)
            &&& o.bool_at("allowFileAccess"@) == Some(options.allow_file_access)
        }),
{
    lemma_request_keys();
    let f = r.view()->Object_0;
    lemma_field_found(f, "session"@, 0);
    lemma_field_found(f, "launchOptions"@, 1);
    let o = f[1].1->Object_0;
    lemma_field_found(o, "headless"@, 0);
    lemma_field_found(o, "engine"@, 1);
    lemma_field_found(o, "args"@, 2);
    lemma_field_found(o, "extensions"@, 3);
    lemma_field_found(o, "userAgent"@, 4);
    lemma_field_found(o, "colorScheme"@, 5);
    lemma_field_found(o, "downloadPath"@, 6);
    lemma_field_found(o, "hideScrollbars"@, 7);
    lemma_field_found(o, "allowFileAccess"@, 8);
}

proof fn lemma_request_keys()
    ensures
        "session"@ != "launchOptions"@,
        "headless"@ != "engine"@,
        "headless"@ != "args"@,
        "headless"@ != "extensions"@,
        "headless"@ != "userAgent"@,
        "headless"@ != "colorScheme"@,
        "headless"@ != "downloadPath"@,
        "headless"@ != "hideScrollbars"@,
        "headless"@ != "allowFileAccess"@,
        "engine"@ != "args"@,
        "engine"@ != "extensions"@,
        "engine"@ != "userAgent"@,
        "engine"@ != "colorScheme"@,
        "engine"@ != "downloadPath"@,
        "engine"@ != "hideScrollbars"@,
        "engine"@ != "allowFileAccess"@,
        "args"@ != "extensions"@,
        "args"@ != "userAgent"@,
        "args"@ != "colorScheme"@,
        "args"@ != "downloadPath"@,
        "args"@ != "hideScrollbars"@,
        "args"@ != "allowFileAccess"@,
        "extensions"@ != "userAgent"@,
        "extensions"@ != "colorScheme"@,
        "extensions"@ != "downloadPath"@,
        "extensions"@ != "hideScrollbars"@,
        "extensions"@ != "allowFileAccess"@,
        "userAgent"@ != "colorScheme"@,
        "userAgent"@ != "downloadPath"@,
        "userAgent"@ != "hideScrollbars"@,
        "userAgent"@ != "allowFileAccess"@,
        "colorScheme"@ != "downloadPath"@,
        "colorScheme"@ != "hideScrollbars"@,
        "colorScheme"@ != "allowFileAccess"@,
        "downloadPath"@ != "hideScrollbars"@,
        "downloadPath"@ != "allowFileAccess"@,
        "hideScrollbars"@ != "allowFileAccess"@,
{
    reveal_strlit("session");
    reveal_strlit("launchOptions");
    reveal_strlit("headless");
    reveal_strlit("engine");
    reveal_strlit("args");
    reveal_strlit("extensions");
    reveal_strlit("userAgent");
    reveal_strlit("colorScheme");
    reveal_strlit("downloadPath");
    reveal_strlit("hideScrollbars");
    reveal_strlit("allowFileAccess");
    assert("session"@.len() == 7 && "launchOptions"@.len() == 13 && "headless"@.len() == 8 && "engine"@.len() == 6 && "args"@.len() == 4 && "extensions"@.len() == 10 && "userAgent"@.len() == 9 && "colorScheme"@.len() == 11 && "downloadPath"@.len() == 12 && "hideScrollbars"@.len() == 14 && "allowFileAccess"@.len() == 15);
}

} // verus!
