//! Signing in: which credentials, and which elements.
use vstd::prelude::*;
use vstd::string::*;

use crate::auth::{
    after_look, after_round, auto_submit_selectors, fallback_user_selectors, first_look,
    found_element, handle_auth_login, handle_auth_save, preferred_user_selectors, prepare_login,
    probe_command, probe_script, AuthRecord, Credential, Login, LoginRequest, WaitStep,
};
use crate::cdp::CdpCommand;
use crate::json::{lemma_field_found, opt_string, Json};
use crate::number::decimal;
use crate::outside::json_literal;
use crate::text::{has_substring, occurs_at, texts};

verus! {

/// A login takes the selector of the field for the user name from the command, or else
/// from the credentials; it has none where neither gives one.
pub proof fn law_login_takes_the_user_selector(
    name: &str,
    cmd: &Json,
    cred: &Credential,
    r: Result<Login, String>,
)
    requires
        call_ensures(prepare_login, (name, cmd, cred), r),
        r is Ok,
    ensures
        cmd.view().str_at("usernameSelector"@) matches Some(s) ==> r->Ok_0.username_selector
            is Some && r->Ok_0.username_selector->Some_0@ == s,
        cmd.view().str_at("usernameSelector"@) is None ==> {
            &&& cred.username_selector matches Some(s) ==> r->Ok_0.username_selector is Some
                && r->Ok_0.username_selector->Some_0@ == s@
            &&& cred.username_selector is None ==> r->Ok_0.username_selector is None
        },
{
}

/// A login takes the selector of the field for the password from the command, or else
/// from the credentials; only where neither gives one does it look for any such field.
pub proof fn law_login_takes_the_password_selector(
    name: &str,
    cmd: &Json,
    cred: &Credential,
    r: Result<Login, String>,
)
    requires
        call_ensures(prepare_login, (name, cmd, cred), r),
        r is Ok,
    ensures
        cmd.view().str_at("passwordSelector"@) matches Some(s) ==> r->Ok_0.password_selector@ == s,
        cmd.view().str_at("passwordSelector"@) is None ==> {
            &&& cred.password_selector matches Some(s) ==> r->Ok_0.password_selector@ == s@
            &&& cred.password_selector is None ==> r->Ok_0.password_selector@
                == "input[type=password]"@
        },
{
}

/// A login takes the selector of the button from the command, or else from the
/// credentials; it has none where neither gives one.
pub proof fn law_login_takes_the_submit_selector(
    name: &str,
    cmd: &Json,
    cred: &Credential,
    r: Result<Login, String>,
)
    requires
        call_ensures(prepare_login, (name, cmd, cred), r),
        r is Ok,
    ensures
        cmd.view().str_at("submitSelector"@) matches Some(s) ==> r->Ok_0.submit_selector is Some
            && r->Ok_0.submit_selector->Some_0@ == s,
        cmd.view().str_at("submitSelector"@) is None ==> {
            &&& cred.submit_selector matches Some(s) ==> r->Ok_0.submit_selector is Some
                && r->Ok_0.submit_selector->Some_0@ == s@
            &&& cred.submit_selector is None ==> r->Ok_0.submit_selector is None
        },
{
}

/// A login goes where the command says, or else where the credentials belong, with their
/// user name and password; it is refused exactly where there is nowhere to go.
pub proof fn law_login_goes_to_its_url(
    name: &str,
    cmd: &Json,
    cred: &Credential,
    r: Result<Login, String>,
)
    requires
        call_ensures(prepare_login, (name, cmd, cred), r),
    ensures
        cmd.view().str_at("url"@) matches Some(u) ==> {
            &&& u.len() > 0 ==> r is Ok && r->Ok_0.url@ == u
            &&& u.len() == 0 ==> r is Err
        },
        cmd.view().str_at("url"@) is None ==> {
            &&& cred.url matches Some(u) ==> {
                &&& u@.len() > 0 ==> r is Ok && r->Ok_0.url@ == u@
                &&& u@.len() == 0 ==> r is Err
            }
            &&& cred.url is None ==> r is Err
        },
        r matches Ok(l) ==> l.name@ == name@ && l.username@ == cred.username@ && l.password@
            == cred.password@,
        r matches Err(e) ==> e@ == "Credential has no URL"@,
{
}

/// Credentials are saved as the command gives them, and only where it gives a name, a
/// URL, a user name and a password.
pub proof fn law_credentials_are_saved_as_given(cmd: &Json, r: Result<AuthRecord, String>)
    requires
        call_ensures(handle_auth_save, (cmd,), r),
    ensures
        r is Ok <==> cmd.view().str_at("name"@) is Some && cmd.view().str_at("url"@) is Some
            && cmd.view().str_at("username"@) is Some && cmd.view().str_at("password"@) is Some,
        r matches Ok(a) ==> {
            &&& Some(a.name@) == cmd.view().str_at("name"@)
            &&& Some(a.url@) == cmd.view().str_at("url"@)
            &&& Some(a.username@) == cmd.view().str_at("username"@)
            &&& Some(a.password@) == cmd.view().str_at("password"@)
            &&& opt_string(a.username_selector) == cmd.view().str_at("usernameSelector"@)
            &&& opt_string(a.password_selector) == cmd.view().str_at("passwordSelector"@)
            &&& opt_string(a.submit_selector) == cmd.view().str_at("submitSelector"@)
        },
        r matches Err(e) ==> {
            &&& cmd.view().str_at("name"@) is None ==> e@ == "Missing 'name'"@
            &&& cmd.view().str_at("name"@) is Some && cmd.view().str_at("url"@) is None ==> e@
                == "Missing 'url'"@
            &&& cmd.view().str_at("name"@) is Some && cmd.view().str_at("url"@) is Some
                && cmd.view().str_at("username"@) is None ==> e@ == "Missing 'username'"@
            &&& cmd.view().str_at("name"@) is Some && cmd.view().str_at("url"@) is Some
                && cmd.view().str_at("username"@) is Some ==> e@ == "Missing 'password'"@
        },
{
}

/// A login asks for the credentials that the command names, and needs a name and a
/// browser.
pub proof fn law_login_asks_for_the_named_credentials(
    cmd: &Json,
    has_browser: bool,
    r: Result<LoginRequest, String>,
)
    requires
        call_ensures(handle_auth_login, (cmd, has_browser), r),
    ensures
        r is Ok <==> has_browser && cmd.view().str_at("name"@) is Some,
        r matches Err(e) ==> e@ == (if cmd.view().str_at("name"@) is None {
            "Missing 'name'"@
        } else {
            "Browser not launched"@
        }),
        r matches Ok(q) ==> {
            &&& Some(q.name@) == cmd.view().str_at("name"@)
            &&& opt_string(q.url) == cmd.view().str_at("url"@)
            &&& opt_string(q.provider) == cmd.view().str_at("credentialProvider"@)
            &&& opt_string(q.item) == cmd.view().str_at("credentialItem"@)
        },
{
}

/// Saved credentials log in as they were saved: a login with them goes to the URL they
/// were saved with, with their user name, password and selectors, where its own command
/// gives none of these.
pub proof fn law_saved_credentials_log_in(
    saved: &Json,
    a: AuthRecord,
    cred: &Credential,
    name: &str,
    cmd: &Json,
    r: Result<Login, String>,
)
    requires
        call_ensures(handle_auth_save, (saved,), Ok(a)),
        opt_string(cred.url) == Some(a.url@),
        cred.username@ == a.username@,
        cred.password@ == a.password@,
        opt_string(cred.username_selector) == opt_string(a.username_selector),
        opt_string(cred.password_selector) == opt_string(a.password_selector),
        opt_string(cred.submit_selector) == opt_string(a.submit_selector),
        call_ensures(prepare_login, (name, cmd, cred), r),
        a.url@.len() > 0,
        cmd.view().str_at("url"@) is None,
        cmd.view().str_at("usernameSelector"@) is None,
        cmd.view().str_at("passwordSelector"@) is None,
        cmd.view().str_at("submitSelector"@) is None,
    ensures
        r matches Ok(l) && Some(l.url@) == saved.view().str_at("url"@) && Some(l.username@)
            == saved.view().str_at("username"@) && Some(l.password@) == saved.view().str_at(
            "password"@,
        ) && opt_string(l.username_selector) == saved.view().str_at("usernameSelector"@)
            && opt_string(l.submit_selector) == saved.view().str_at("submitSelector"@) && (
        saved.view().str_at("passwordSelector"@) matches Some(s) ==> l.password_selector@ == s),
{
}

/// An element is there exactly where the script has answered `true`.
pub proof fn law_element_is_there_where_the_script_says_so(reply: &Json, r: bool)
    requires
        call_ensures(found_element, (reply,), r),
    ensures
        r <==> (reply.view().get("result"@) is Some && reply.view().get(
            "result"@,
        )->Some_0.bool_at("value"@) == Some(true)),
{
}

/// A look at an element ends the wait where it fails or the element is there; else the
/// next element is looked at, and after the last one the round is over.
pub proof fn law_look_goes_from_element_to_element(
    count: usize,
    index: usize,
    reply: Result<Json, String>,
    found: bool,
    r: WaitStep,
    first: WaitStep,
)
    requires
        index < count,
        call_ensures(after_look, (count, index, reply), r),
        reply matches Ok(v) ==> call_ensures(found_element, (&v,), found),
        call_ensures(first_look, (count,), first),
    ensures
        first == WaitStep::Look(0),
        reply matches Err(e) ==> (r matches WaitStep::Failed(m) && m@ == e@),
        reply is Ok && found ==> r == WaitStep::Found(index),
        reply is Ok && !found && index + 1 < count ==> r == WaitStep::Look((index + 1) as usize),
        reply is Ok && !found && index + 1 == count ==> r is RoundOver,
{
}

/// A round without an element to look at is over at once.
pub proof fn law_nothing_to_look_at(r: WaitStep)
    requires
        call_ensures(first_look, (0usize,), r),
    ensures
        r is RoundOver,
{
}

/// A wait goes on until time is up, and then names the time that it has waited.
pub proof fn law_wait_ends_in_time(expired: bool, timeout_ms: u64, r: Option<String>)
    requires
        call_ensures(after_round, (expired, timeout_ms), r),
    ensures
        r is Some <==> expired,
        r matches Some(m) ==> m@ == "Wait timed out after "@ + decimal(timeout_ms as nat) + "ms"@,
{
}

/// The script looks for the element with the given selector, which stands in it as a
/// string literal.
pub proof fn law_script_looks_for_the_selector(selector: &str, r: String)
    requires
        call_ensures(probe_script, (selector,), r),
    ensures
        has_substring(r@, "document.querySelector("@ + json_literal(selector@) + ");"@),
{
    let q = "document.querySelector("@;
    let lit = json_literal(selector@);
    let start = crate::auth::PROBE_START@;
    let end = crate::auth::PROBE_END@;
    reveal_strlit("document.querySelector(");
    reveal_strlit(");");
    reveal_strlit(
        "(() => {\n                    const el = document.querySelector(",
    );
    assert(q.len() == 23);
    assert(start.len() == 63);
    assert(start.skip(40) == q);
    lemma_probe_end();
    let needle = q + lit + ");"@;
    assert(r@ == start + lit + end);
    assert(r@.subrange(40int, 40int + needle.len()) == needle);
    assert(occurs_at(r@, needle, 40));
}

proof fn lemma_probe_end()
    ensures
        crate::auth::PROBE_END@.len() >= 2,
        crate::auth::PROBE_END@[0] == ')',
        crate::auth::PROBE_END@[1] == ';',
{
    reveal_strlit(
        ");\n                    if (!el) return false;\n\n                    const r = el.getBoundingClientRect();\n                    const s = window.getComputedStyle(el);\n                    const opacity = parseFloat(s.opacity || '1');\n                    const isVisible =\n                        r.width > 0 &&\n                        r.height > 0 &&\n                        s.visibility !== 'hidden' &&\n                        s.display !== 'none' &&\n                        (!Number.isFinite(opacity) || opacity > 0);\n\n                    if (!isVisible) return false;\n                    if (el.matches(':disabled')) return false;\n\n                    if (el instanceof HTMLInputElement && el.type === 'hidden') return false;\n                    if ((el instanceof HTMLInputElement || el instanceof HTMLTextAreaElement) && el.readOnly) return false;\n\n                    return true;\n                })()",
    );
}

/// The script is run in the given session, and its value is waited for.
pub proof fn law_script_is_run_in_the_session(
    selector: &str,
    session: &str,
    script: String,
    r: CdpCommand,
)
    requires
        call_ensures(probe_script, (selector,), script),
        call_ensures(probe_command, (selector, session), r),
    ensures
        r.method@ == "Runtime.evaluate"@,
        opt_string(r.session) == Some(session@),
        r.view().params is Some,
        r.view().params->Some_0.str_at("expression"@) == Some(script@),
        r.view().params->Some_0.bool_at("returnByValue"@) == Some(true),
        r.view().params->Some_0.bool_at("awaitPromise"@) == Some(true),
{
    reveal_strlit("expression");
    reveal_strlit("returnByValue");
    reveal_strlit("awaitPromise");
    assert("expression"@.len() == 10 && "returnByValue"@.len() == 13 && "awaitPromise"@.len()
        == 12);
    let f = r.view().params->Some_0->Object_0;
    lemma_field_found(f, "expression"@, 0);
    lemma_field_found(f, "returnByValue"@, 1);
    lemma_field_found(f, "awaitPromise"@, 2);
}

/// The fields that most likely take the user name are looked for in this order: fields for
/// an address, then for a user name, by their kind, their name, their id and what they may
/// be filled in with; first exactly, then loosely.
pub proof fn law_likely_fields_come_in_order(
    preferred: Vec<String>,
    fallback: Vec<String>,
    buttons: Vec<String>,
)
    requires
        call_ensures(preferred_user_selectors, (), preferred),
        call_ensures(fallback_user_selectors, (), fallback),
        call_ensures(auto_submit_selectors, (), buttons),
    ensures
        preferred@.len() == 16,
        preferred@[0]@ == "input[type=email]"@,
        preferred@[1]@ == "input[name=email]"@,
        preferred@[2]@ == "input[id=email]"@,
        preferred@[3]@ == "input[autocomplete=email]"@,
        preferred@[4]@ == "input[autocomplete=username]"@,
        preferred@[5]@ == "input[name=username]"@,
        preferred@[6]@ == "input[name*=email i]"@,
        preferred@[7]@ == "input[name*=user i]"@,
        preferred@[8]@ == "input[id*=email i]"@,
        preferred@[9]@ == "input[id*=user i]"@,
        preferred@[10]@ == "input[type=text][name*=email i]"@,
        preferred@[11]@ == "input[type=text][name*=user i]"@,
        preferred@[12]@ == "input[type=text][id*=email i]"@,
        preferred@[13]@ == "input[type=text][id*=user i]"@,
        preferred@[14]@ == "input[type=text][autocomplete=email]"@,
        preferred@[15]@ == "input[type=text][autocomplete=username]"@,
        fallback@.len() == 2,
        fallback@[0]@ == "input[type=text]"@,
        fallback@[1]@ == "input:not([type])"@,
        buttons@.len() == 3,
        buttons@[0]@ == "button[type=submit]"@,
        buttons@[1]@ == "input[type=submit]"@,
        buttons@[2]@ == "button:not([type])"@,
{
    let p = texts(preferred@);
    let f = texts(fallback@);
    let b = texts(buttons@);
    assert(p.len() == preferred@.len() && f.len() == fallback@.len() && b.len() == buttons@.len());
    assert forall|i: int| 0 <= i < p.len() implies #[trigger] p[i] == preferred@[i]@ by {}
    assert(p[0] == preferred@[0]@ && p[1] == preferred@[1]@ && p[2] == preferred@[2]@ && p[3]
        == preferred@[3]@ && p[4] == preferred@[4]@ && p[5] == preferred@[5]@ && p[6]
        == preferred@[6]@ && p[7] == preferred@[7]@);
    assert(p[8] == preferred@[8]@ && p[9] == preferred@[9]@ && p[10] == preferred@[10]@ && p[11]
        == preferred@[11]@ && p[12] == preferred@[12]@ && p[13] == preferred@[13]@ && p[14]
        == preferred@[14]@ && p[15] == preferred@[15]@);
    assert(f[0] == fallback@[0]@ && f[1] == fallback@[1]@);
    assert(b[0] == buttons@[0]@ && b[1] == buttons@[1]@ && b[2] == buttons@[2]@);
}

} // verus!
