//! Signing in: saved credentials, and filling in a login form.
use vstd::prelude::*;
use vstd::string::*;

use crate::cdp::{command, CdpCommand};
use crate::json::{copied, opt_str, opt_string, or_else, owned, Fields, Json, JsonV};
use crate::number::{decimal, decimal_text};
use crate::options::first_of;
use crate::outside::{json_literal, json_string};
use crate::text::texts;

verus! {

/// The script that looks for an element up to its selector.
pub const PROBE_START: &'static str = "(() => {\n                    const el = document.querySelector(";

/// The script that looks for an element after its selector: whether it is there, can be
/// seen, and takes input.
pub const PROBE_END: &'static str = ");\n                    if (!el) return false;\n\n                    const r = el.getBoundingClientRect();\n                    const s = window.getComputedStyle(el);\n                    const opacity = parseFloat(s.opacity || '1');\n                    const isVisible =\n                        r.width > 0 &&\n                        r.height > 0 &&\n                        s.visibility !== 'hidden' &&\n                        s.display !== 'none' &&\n                        (!Number.isFinite(opacity) || opacity > 0);\n\n                    if (!isVisible) return false;\n                    if (el.matches(':disabled')) return false;\n\n                    if (el instanceof HTMLInputElement && el.type === 'hidden') return false;\n                    if ((el instanceof HTMLInputElement || el instanceof HTMLTextAreaElement) && el.readOnly) return false;\n\n                    return true;\n                })()";

/// The script that tells whether an element can be seen and used.
pub open spec fn probe(selector: Seq<char>) -> Seq<char> {
    PROBE_START@ + json_literal(selector) + PROBE_END@
}

/// The script that tells whether an element can be seen and used.
pub fn probe_script(selector: &str) -> (r: String)
    ensures
        r@ == probe(selector@),
{
    let mut out = PROBE_START.to_owned();
    match json_string(selector) {
        Some(s) => out.append(s.as_str()),
        None => {},
    }
    out.append(PROBE_END);
    out
}

/// The command that has a session run the script for an element.
pub open spec fn probe_request(selector: Seq<char>, session: Seq<char>) -> crate::cdp::CommandV {
    command(
        "Runtime.evaluate"@,
        JsonV::Object(
            seq![
                ("expression"@, JsonV::Str(probe(selector))),
                ("returnByValue"@, JsonV::Bool(true)),
                ("awaitPromise"@, JsonV::Bool(true)),
            ],
        ),
        session,
    )
}

/// The command that has a session run the script for an element.
pub fn probe_command(selector: &str, session: &str) -> (r: CdpCommand)
    ensures
        r.view() == probe_request(selector@, session@),
{
    let script = probe_script(selector);
    let f = Fields::new().with("expression", Json::text(&script)).with(
        "returnByValue",
        Json::truth(true),
    ).with("awaitPromise", Json::truth(true));
    assert(f.view() == seq![
        ("expression"@, JsonV::Str(probe(selector@))),
        ("returnByValue"@, JsonV::Bool(true)),
        ("awaitPromise"@, JsonV::Bool(true)),
    ]);
    CdpCommand::new("Runtime.evaluate", f.done(), session)
}

/// The script has answered that the element is there: its value is `true`.
pub open spec fn confirms(reply: JsonV) -> bool {
    match reply.get("result"@) {
        Some(result) => or_else(result.bool_at("value"@), false),
        None => false,
    }
}

/// Whether the script has answered that the element is there.
pub fn found_element(reply: &Json) -> (r: bool)
    ensures
        r == confirms(reply.view()),
{
    match reply.get("result") {
        Some(result) => match result.bool_at("value") {
            Some(b) => b,
            None => false,
        },
        None => false,
    }
}

/// What to do in a wait for one of several elements: take the one at an index, end with
/// an error, look for the one at an index, or see whether time is up.
#[derive(PartialEq, Eq, Debug)]
pub enum WaitStep {
    Found(usize),
    Failed(String),
    Look(usize),
    RoundOver,
}

/// The contents of a step of a wait.
pub ghost enum WaitV {
    Found(int),
    Failed(Seq<char>),
    Look(int),
    RoundOver,
}

impl WaitStep {
    /// The contents of the step.
    pub open spec fn view(self) -> WaitV {
        match self {
            WaitStep::Found(i) => WaitV::Found(i as int),
            WaitStep::Failed(e) => WaitV::Failed(e@),
            WaitStep::Look(i) => WaitV::Look(i as int),
            WaitStep::RoundOver => WaitV::RoundOver,
        }
    }
}

/// The step that comes to the element at `index` of `count`, if there is one.
pub open spec fn look_at(count: int, index: int) -> WaitV {
    if index < count {
        WaitV::Look(index)
    } else {
        WaitV::RoundOver
    }
}

/// The step after the element at `index` of `count` was looked for.
pub open spec fn look_step(count: int, index: int, reply: Result<JsonV, Seq<char>>) -> WaitV {
    match reply {
        Err(e) => WaitV::Failed(e),
        Ok(v) => if confirms(v) {
            WaitV::Found(index)
        } else {
            look_at(count, index + 1)
        },
    }
}

/// What to do first in a round of a wait for one of `count` elements.
pub fn first_look(count: usize) -> (r: WaitStep)
    ensures
        r.view() == look_at(count as int, 0),
{
    if count > 0 {
        WaitStep::Look(0)
    } else {
        WaitStep::RoundOver
    }
}

/// What to do after the element at `index` of `count` was looked for.
pub fn after_look(count: usize, index: usize, reply: Result<Json, String>) -> (r: WaitStep)
    requires
        index < count,
    ensures
        r.view() == look_step(count as int, index as int, crate::cdp::json_outcome(reply)),
{
    match reply {
        Err(e) => WaitStep::Failed(e),
        Ok(v) => if found_element(&v) {
            WaitStep::Found(index)
        } else if index + 1 < count {
            WaitStep::Look(index + 1)
        } else {
            WaitStep::RoundOver
        },
    }
}

/// What to do after a round of a wait: end it with an error where time is up, else look
/// again, after a pause.
pub fn after_round(expired: bool, timeout_ms: u64) -> (r: Option<String>)
    ensures
        opt_string(r) == if expired {
            Some("Wait timed out after "@ + decimal(timeout_ms as nat) + "ms"@)
        } else {
            None
        },
{
    if expired {
        let mut m = "Wait timed out after ".to_owned();
        m.append(decimal_text(timeout_ms as u128).as_str());
        m.append("ms");
        Some(m)
    } else {
        None
    }
}

/// How a round of a wait ends that has come to the given step, where the script answers
/// as given for each element.
pub open spec fn round_end(replies: Seq<Result<JsonV, Seq<char>>>, step: WaitV) -> WaitV
    decreases
            (if step is Look {
                replies.len() - step->Look_0
            } else {
                0
            }),
    when step matches WaitV::Look(i) ==> 0 <= i < replies.len()
{
    match step {
        WaitV::Look(i) => round_end(replies, look_step(replies.len() as int, i, replies[i])),
        _ => step,
    }
}

/// A wait takes the first element that is there: every element before it was looked for
/// in vain.
pub proof fn law_wait_takes_the_first_match(
    replies: Seq<Result<JsonV, Seq<char>>>,
    start: int,
    found: int,
)
    requires
        0 <= start < replies.len(),
        round_end(replies, WaitV::Look(start)) == WaitV::Found(found),
    ensures
        start <= found < replies.len(),
        replies[found] matches Ok(v) && confirms(v),
        forall|i: int|
            start <= i < found ==> (#[trigger] replies[i]) is Ok && !confirms(replies[i]->Ok_0),
    decreases replies.len() - start,
{
    reveal_with_fuel(round_end, 2);
    match look_step(replies.len() as int, start, replies[start]) {
        WaitV::Look(i) => law_wait_takes_the_first_match(replies, i, found),
        _ => {},
    }
}

/// A round of a wait that comes upon an element that is there, with no error before it,
/// ends with an element found.
pub proof fn law_wait_misses_no_match(
    replies: Seq<Result<JsonV, Seq<char>>>,
    start: int,
    there: int,
)
    requires
        0 <= start <= there < replies.len(),
        forall|i: int| start <= i <= there ==> (#[trigger] replies[i]) is Ok,
        confirms(replies[there]->Ok_0),
    ensures
        round_end(replies, WaitV::Look(start)) is Found,
    decreases there - start,
{
    reveal_with_fuel(round_end, 2);
    assert(replies[start] is Ok);
    if !confirms(replies[start]->Ok_0) {
        law_wait_misses_no_match(replies, start + 1, there);
    }
}

/// Credentials to save.
#[derive(PartialEq, Eq, Debug)]
pub struct AuthRecord {
    pub name: String,
    pub url: String,
    pub username: String,
    pub password: String,
    pub username_selector: Option<String>,
    pub password_selector: Option<String>,
    pub submit_selector: Option<String>,
}

/// The first of the four strings that credentials need and that a command does not hold.
pub open spec fn missing_credential(cmd: JsonV) -> Option<Seq<char>> {
    if cmd.str_at("name"@) is None {
        Some("Missing 'name'"@)
    } else if cmd.str_at("url"@) is None {
        Some("Missing 'url'"@)
    } else if cmd.str_at("username"@) is None {
        Some("Missing 'username'"@)
    } else if cmd.str_at("password"@) is None {
        Some("Missing 'password'"@)
    } else {
        None
    }
}

fn needed(value: Option<&str>, message: &str) -> (r: Result<String, String>)
    ensures
        match opt_str(value) {
            Some(s) => r matches Ok(t) && t@ == s,
            None => r matches Err(m) && m@ == message@,
        },
{
    match value {
        Some(s) => Ok(s.to_owned()),
        None => Err(message.to_owned()),
    }
}

/// The credentials that a command asks to save.
pub fn handle_auth_save(cmd: &Json) -> (r: Result<AuthRecord, String>)
    ensures
        match missing_credential(cmd.view()) {
            Some(message) => r matches Err(m) && m@ == message,
            None => r matches Ok(a) && cmd.view().str_at("name"@) == Some(a.name@)
                && cmd.view().str_at("url"@) == Some(a.url@) && cmd.view().str_at("username"@)
                == Some(a.username@) && cmd.view().str_at("password"@) == Some(a.password@)
                && opt_string(a.username_selector) == cmd.view().str_at("usernameSelector"@)
                && opt_string(a.password_selector) == cmd.view().str_at("passwordSelector"@)
                && opt_string(a.submit_selector) == cmd.view().str_at("submitSelector"@),
        },
{
    let name = needed(cmd.str_at("name"), "Missing 'name'")?;
    let url = needed(cmd.str_at("url"), "Missing 'url'")?;
    let username = needed(cmd.str_at("username"), "Missing 'username'")?;
    let password = needed(cmd.str_at("password"), "Missing 'password'")?;
    Ok(
        AuthRecord {
            name,
            url,
            username,
            password,
            username_selector: owned(cmd.str_at("usernameSelector")),
            password_selector: owned(cmd.str_at("passwordSelector")),
            submit_selector: owned(cmd.str_at("submitSelector")),
        },
    )
}

/// What a login asks for: whose credentials, where, and who provides them. Without a
/// provider they are those that were saved under the name.
#[derive(PartialEq, Eq, Debug)]
pub struct LoginRequest {
    pub name: String,
    pub url: Option<String>,
    pub provider: Option<String>,
    pub item: Option<String>,
}

/// What a login asks for.
pub fn handle_auth_login(cmd: &Json, has_browser: bool) -> (r: Result<LoginRequest, String>)
    ensures
        match cmd.view().str_at("name"@) {
            None => r matches Err(m) && m@ == "Missing 'name'"@,
            Some(name) => if has_browser {
                r matches Ok(q) && q.name@ == name && opt_string(q.url) == cmd.view().str_at(
                    "url"@,
                ) && opt_string(q.provider) == cmd.view().str_at("credentialProvider"@)
                    && opt_string(q.item) == cmd.view().str_at("credentialItem"@)
            } else {
                r matches Err(m) && m@ == "Browser not launched"@
            },
        },
{
    let name = needed(cmd.str_at("name"), "Missing 'name'")?;
    if !has_browser {
        return Err("Browser not launched".to_owned());
    }
    Ok(
        LoginRequest {
            name,
            url: owned(cmd.str_at("url")),
            provider: owned(cmd.str_at("credentialProvider")),
            item: owned(cmd.str_at("credentialItem")),
        },
    )
}

/// Credentials as they were saved, or as a provider has given them.
#[derive(PartialEq, Eq, Debug)]
pub struct Credential {
    pub url: Option<String>,
    pub username: String,
    pub password: String,
    pub username_selector: Option<String>,
    pub password_selector: Option<String>,
    pub submit_selector: Option<String>,
}

/// A login that is ready to run: where, with what, and how long to wait for each part
/// of the form.
#[derive(PartialEq, Eq, Debug)]
pub struct Login {
    pub name: String,
    pub url: String,
    pub username: String,
    pub password: String,
    pub username_selector: Option<String>,
    pub password_selector: String,
    pub submit_selector: Option<String>,
}

/// Where a login goes: where the command says, or else where the credentials belong.
pub open spec fn login_url(cmd: JsonV, cred: Credential) -> Seq<char> {
    or_else(first_of(cmd.str_at("url"@), opt_string(cred.url)), Seq::<char>::empty())
}

/// The login with the given credentials. Selectors in the command go before those in the
/// credentials; the field for the password has a selector of its own where neither gives
/// one.
pub open spec fn is_login(l: Login, name: Seq<char>, cmd: JsonV, cred: Credential) -> bool {
    &&& l.name@ == name
    &&& l.url@ == login_url(cmd, cred)
    &&& l.username@ == cred.username@
    &&& l.password@ == cred.password@
    &&& opt_string(l.username_selector) == first_of(
        cmd.str_at("usernameSelector"@),
        opt_string(cred.username_selector),
    )
    &&& l.password_selector@ == or_else(
        first_of(cmd.str_at("passwordSelector"@), opt_string(cred.password_selector)),
        "input[type=password]"@,
    )
    &&& opt_string(l.submit_selector) == first_of(
        cmd.str_at("submitSelector"@),
        opt_string(cred.submit_selector),
    )
}

fn chosen(given: Option<&str>, stored: &Option<String>) -> (r: Option<String>)
    ensures
        opt_string(r) == first_of(opt_str(given), opt_string(*stored)),
{
    match given {
        Some(s) => Some(s.to_owned()),
        None => copied(stored),
    }
}

/// The login that a command asks for, with the credentials that were found for it.
pub fn prepare_login(name: &str, cmd: &Json, cred: &Credential) -> (r: Result<Login, String>)
    ensures
        if login_url(cmd.view(), *cred).len() == 0 {
            r matches Err(m) && m@ == "Credential has no URL"@
        } else {
            r matches Ok(l) && is_login(l, name@, cmd.view(), *cred)
        },
{
    let url = match chosen(cmd.str_at("url"), &cred.url) {
        Some(u) => u,
        None => String::new(),
    };
    assert(url@ == login_url(cmd.view(), *cred));
    if url.as_str().is_empty() {
        return Err("Credential has no URL".to_owned());
    }
    let password_selector = match chosen(
        cmd.str_at("passwordSelector"),
        &cred.password_selector,
    ) {
        Some(s) => s,
        None => "input[type=password]".to_owned(),
    };
    Ok(
        Login {
            name: name.to_owned(),
            url,
            username: cred.username.clone(),
            password: cred.password.clone(),
            username_selector: chosen(
                cmd.str_at("usernameSelector"),
                &cred.username_selector,
            ),
            password_selector,
            submit_selector: chosen(cmd.str_at("submitSelector"), &cred.submit_selector),
        },
    )
}

/// The selectors of fields that most likely take the name of a user.
pub open spec fn preferred_fields() -> Seq<Seq<char>> {
    seq![
        "input[type=email]"@,
        "input[name=email]"@,
        "input[id=email]"@,
        "input[autocomplete=email]"@,
        "input[autocomplete=username]"@,
        "input[name=username]"@,
        "input[name*=email i]"@,
        "input[name*=user i]"@,
        "input[id*=email i]"@,
        "input[id*=user i]"@,
        "input[type=text][name*=email i]"@,
        "input[type=text][name*=user i]"@,
        "input[type=text][id*=email i]"@,
        "input[type=text][id*=user i]"@,
        "input[type=text][autocomplete=email]"@,
        "input[type=text][autocomplete=username]"@,
    ]
}

/// The selectors of fields that most likely take the name of a user.
pub fn preferred_user_selectors() -> (r: Vec<String>)
    ensures
        texts(r@) == preferred_fields(),
{
    let mut out: Vec<String> = Vec::new();
    out.push("input[type=email]".to_owned());
    out.push("input[name=email]".to_owned());
    out.push("input[id=email]".to_owned());
    out.push("input[autocomplete=email]".to_owned());
    out.push("input[autocomplete=username]".to_owned());
    out.push("input[name=username]".to_owned());
    out.push("input[name*=email i]".to_owned());
    out.push("input[name*=user i]".to_owned());
    out.push("input[id*=email i]".to_owned());
    out.push("input[id*=user i]".to_owned());
    out.push("input[type=text][name*=email i]".to_owned());
    out.push("input[type=text][name*=user i]".to_owned());
    out.push("input[type=text][id*=email i]".to_owned());
    out.push("input[type=text][id*=user i]".to_owned());
    out.push("input[type=text][autocomplete=email]".to_owned());
    out.push("input[type=text][autocomplete=username]".to_owned());
    assert(texts(out@) == preferred_fields());
    out
}

/// The selectors of fields that may take the name of a user.
pub open spec fn fallback_fields() -> Seq<Seq<char>> {
    seq![
        "input[type=text]"@,
        "input:not([type])"@,
    ]
}

/// The selectors of fields that may take the name of a user.
pub fn fallback_user_selectors() -> (r: Vec<String>)
    ensures
        texts(r@) == fallback_fields(),
{
    let mut out: Vec<String> = Vec::new();
    out.push("input[type=text]".to_owned());
    out.push("input:not([type])".to_owned());
    assert(texts(out@) == fallback_fields());
    out
}

/// The selectors of buttons that may submit a form.
pub open spec fn submit_buttons() -> Seq<Seq<char>> {
    seq![
        "button[type=submit]"@,
        "input[type=submit]"@,
        "button:not([type])"@,
    ]
}

/// The selectors of buttons that may submit a form.
pub fn auto_submit_selectors() -> (r: Vec<String>)
    ensures
        texts(r@) == submit_buttons(),
{
    let mut out: Vec<String> = Vec::new();
    out.push("button[type=submit]".to_owned());
    out.push("input[type=submit]".to_owned());
    out.push("button:not([type])".to_owned());
    assert(texts(out@) == submit_buttons());
    out
}

} // verus!
