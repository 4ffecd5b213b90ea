//! The course of a login.
use vstd::prelude::*;
use vstd::string::*;

use crate::auth::{auto_submit_selectors, fallback_user_selectors, preferred_user_selectors, Login};
use crate::json::lemma_field_found;
use crate::login::{is_navigation, login_action, login_next, LoginAction, LoginState, LoginTiming};
use crate::number::decimal;
use crate::text::{joined, texts};

verus! {

/// Once the page is open, a login waits for the field that it was told of, and fills the
/// user name in there.
pub proof fn law_named_user_field_is_filled_in(
    l: &Login,
    t: LoginTiming,
    opened: Result<String, String>,
    a: Result<LoginState, String>,
    wait: LoginAction,
    seen: Result<String, String>,
    b: Result<LoginState, String>,
    fill: LoginAction,
)
    requires
        l.username_selector is Some,
        opened is Ok,
        call_ensures(login_next, (l, t, LoginState::Navigate, opened), a),
        a is Ok ==> call_ensures(login_action, (l, t, &a->Ok_0), wait),
        seen is Ok,
        a is Ok ==> call_ensures(login_next, (l, t, a->Ok_0, seen), b),
        b is Ok ==> call_ensures(login_action, (l, t, &b->Ok_0), fill),
    ensures
        a is Ok,
        wait matches LoginAction::WaitVisible(s, ms) && s@ == l.username_selector->Some_0@ && ms
            == t.timeout_ms,
        b is Ok,
        fill matches LoginAction::Fill(s, v) && s@ == l.username_selector->Some_0@ && v@
            == l.username@,
{
}

/// Without a field that it was told of, a login looks for a likely one first, then, in
/// the time that is left, for any other, and fills the user name in where it finds one.
pub proof fn law_user_field_is_looked_for(
    l: &Login,
    t: LoginTiming,
    opened: Result<String, String>,
    a: Result<LoginState, String>,
    first: LoginAction,
    e: String,
    b: Result<LoginState, String>,
    second: LoginAction,
    preferred: Vec<String>,
    fallback: Vec<String>,
)
    requires
        l.username_selector is None,
        opened is Ok,
        t.timeout_ms > t.preferred_limit_ms,
        call_ensures(preferred_user_selectors, (), preferred),
        call_ensures(fallback_user_selectors, (), fallback),
        call_ensures(login_next, (l, t, LoginState::Navigate, opened), a),
        a is Ok ==> call_ensures(login_action, (l, t, &a->Ok_0), first),
        a is Ok ==> call_ensures(login_next, (l, t, a->Ok_0, Err(e)), b),
        b is Ok ==> call_ensures(login_action, (l, t, &b->Ok_0), second),
    ensures
        a is Ok,
        first matches LoginAction::WaitAny(s, ms) && texts(s@) == texts(preferred@) && ms
            == t.preferred_limit_ms,
        b is Ok,
        second matches LoginAction::WaitAny(s, ms) && texts(s@) == texts(fallback@) && ms
            == t.timeout_ms - t.preferred_limit_ms,
{
}

/// Where the likely fields take all the time there is, no other is looked for: the login
/// ends with an error.
pub proof fn law_no_time_for_other_fields(
    l: &Login,
    t: LoginTiming,
    e: String,
    wait: LoginAction,
    r: Result<LoginState, String>,
)
    requires
        t.timeout_ms <= t.preferred_limit_ms,
        call_ensures(login_action, (l, t, &LoginState::WaitPreferred), wait),
        call_ensures(login_next, (l, t, LoginState::WaitPreferred, Err(e)), r),
    ensures
        wait matches LoginAction::WaitAny(s, ms) && ms == t.timeout_ms,
        r is Err,
{
}

/// The field that a search has found takes the user name, then the field for the password
/// is waited for, and takes the password.
pub proof fn law_found_fields_are_filled_in(
    l: &Login,
    t: LoginTiming,
    state: LoginState,
    found: String,
    a: Result<LoginState, String>,
    user: LoginAction,
    filled: Result<String, String>,
    b: Result<LoginState, String>,
    wait: LoginAction,
    seen: Result<String, String>,
    c: Result<LoginState, String>,
    password: LoginAction,
)
    requires
        state is WaitPreferred || state is WaitFallback,
        filled is Ok,
        seen is Ok,
        call_ensures(login_next, (l, t, state, Ok(found)), a),
        a is Ok ==> call_ensures(login_action, (l, t, &a->Ok_0), user),
        a is Ok ==> call_ensures(login_next, (l, t, a->Ok_0, filled), b),
        b is Ok ==> call_ensures(login_action, (l, t, &b->Ok_0), wait),
        b is Ok ==> call_ensures(login_next, (l, t, b->Ok_0, seen), c),
        c is Ok ==> call_ensures(login_action, (l, t, &c->Ok_0), password),
    ensures
        a is Ok && b is Ok && c is Ok,
        user matches LoginAction::Fill(s, v) && s@ == found@ && v@ == l.username@,
        wait matches LoginAction::WaitVisible(s, ms) && s@ == l.password_selector@ && ms
            == t.timeout_ms,
        password matches LoginAction::Fill(s, v) && s@ == l.password_selector@ && v@
            == l.password@,
{
}

/// Once the password is filled in, the button that the login was told of is waited for
/// and clicked.
pub proof fn law_named_button_is_clicked(
    l: &Login,
    t: LoginTiming,
    filled: Result<String, String>,
    a: Result<LoginState, String>,
    wait: LoginAction,
    seen: Result<String, String>,
    b: Result<LoginState, String>,
    click: LoginAction,
)
    requires
        l.submit_selector is Some,
        filled is Ok,
        seen is Ok,
        call_ensures(login_next, (l, t, LoginState::FillPassword, filled), a),
        a is Ok ==> call_ensures(login_action, (l, t, &a->Ok_0), wait),
        a is Ok ==> call_ensures(login_next, (l, t, a->Ok_0, seen), b),
        b is Ok ==> call_ensures(login_action, (l, t, &b->Ok_0), click),
    ensures
        a is Ok && b is Ok,
        wait matches LoginAction::WaitVisible(s, ms) && s@ == l.submit_selector->Some_0@ && ms
            == t.timeout_ms,
        click matches LoginAction::Click(s) && s@ == l.submit_selector->Some_0@,
{
}

/// Without a button that it was told of, a login looks for one and clicks the one that it
/// finds.
pub proof fn law_found_button_is_clicked(
    l: &Login,
    t: LoginTiming,
    filled: Result<String, String>,
    a: Result<LoginState, String>,
    wait: LoginAction,
    found: String,
    b: Result<LoginState, String>,
    click: LoginAction,
    buttons: Vec<String>,
)
    requires
        l.submit_selector is None,
        filled is Ok,
        call_ensures(auto_submit_selectors, (), buttons),
        call_ensures(login_next, (l, t, LoginState::FillPassword, filled), a),
        a is Ok ==> call_ensures(login_action, (l, t, &a->Ok_0), wait),
        a is Ok ==> call_ensures(login_next, (l, t, a->Ok_0, Ok(found)), b),
        b is Ok ==> call_ensures(login_action, (l, t, &b->Ok_0), click),
    ensures
        a is Ok && b is Ok,
        wait matches LoginAction::WaitAny(s, ms) && texts(s@) == texts(buttons@) && ms
            == t.timeout_ms,
        click matches LoginAction::Click(s) && s@ == found@,
{
}

/// After the click a login waits for the page to change. It is done where that was seen,
/// and rests first where it was not; either way it then succeeds, under its name.
pub proof fn law_login_ends_after_the_click(
    l: &Login,
    t: LoginTiming,
    selector: String,
    clicked: Result<String, String>,
    a: Result<LoginState, String>,
    wait: LoginAction,
    seen: Result<String, String>,
    b: Result<LoginState, String>,
    next: LoginAction,
    rested: Result<String, String>,
    c: Result<LoginState, String>,
    done: LoginAction,
)
    requires
        clicked is Ok,
        call_ensures(login_next, (l, t, LoginState::Click(selector), clicked), a),
        a is Ok ==> call_ensures(login_action, (l, t, &a->Ok_0), wait),
        a is Ok ==> call_ensures(login_next, (l, t, a->Ok_0, seen), b),
        b is Ok ==> call_ensures(login_action, (l, t, &b->Ok_0), next),
        b is Ok ==> call_ensures(login_next, (l, t, b->Ok_0, rested), c),
        c is Ok ==> call_ensures(login_action, (l, t, &c->Ok_0), done),
    ensures
        a is Ok && b is Ok && c is Ok,
        wait == LoginAction::AwaitNavigation(10),
        seen is Ok ==> next is Finish,
        seen is Err ==> next == LoginAction::Sleep(2),
        done matches LoginAction::Finish(j) && j.view().bool_at("loggedIn"@) == Some(true)
            && j.view().str_at("name"@) == Some(l.name@),
{
    reveal_strlit("loggedIn");
    reveal_strlit("name");
    assert("loggedIn"@.len() == 8 && "name"@.len() == 4);
    if let LoginAction::Finish(j) = done {
        let f = j.view()->Object_0;
        lemma_field_found(f, "loggedIn"@, 0);
        lemma_field_found(f, "name"@, 1);
    }
}

/// A login starts by opening its page.
pub proof fn law_login_opens_its_page(l: &Login, t: LoginTiming, r: LoginAction)
    requires
        call_ensures(login_action, (l, t, &LoginState::Navigate), r),
    ensures
        r matches LoginAction::Navigate(u) && u@ == l.url@,
{
}

/// A failure to open the page, to fill in a field or to click the button ends a login with
/// its error; a field or a button that was named and does not come up ends it with an
/// error that names it.
pub proof fn law_login_ends_with_the_error(
    l: &Login,
    t: LoginTiming,
    state: LoginState,
    e: String,
    r: Result<LoginState, String>,
)
    requires
        call_ensures(login_next, (l, t, state, Err(e)), r),
    ensures
        state is Navigate || state is FillUser || state is FillPassword || state is Click ==> (
        r matches Err(m) && m@ == e@),
        state matches LoginState::WaitUser(s) ==> (r matches Err(m) && m@
            == "Timed out waiting for username selector '"@ + s@ + "'"@),
        state is WaitPassword ==> (r matches Err(m) && m@
            == "Timed out waiting for password selector '"@ + l.password_selector@ + "'"@),
        state matches LoginState::WaitSubmit(s) ==> (r matches Err(m) && m@
            == "Timed out waiting for submit selector '"@ + s@ + "'"@),
        state is WaitFallback || state is WaitAnySubmit ==> r is Err,
{
}

/// A session has come to a new page where an event of its own says that a frame was
/// navigated or that a page was loaded.
pub proof fn law_navigation_is_seen(
    event_session: Option<&str>,
    method: &str,
    session: &str,
    r: bool,
)
    requires
        call_ensures(is_navigation, (event_session, method, session), r),
    ensures
        event_session is None ==> !r,
        event_session matches Some(s) ==> (r <==> s@ == session@ && (method@
            == "Page.frameNavigated"@ || method@ == "Page.loadEventFired"@)),
{
}

/// Where no field for the user name comes up, the error names the fields that were looked
/// for and how long; where no button does, the buttons.
pub proof fn law_login_names_what_it_looked_for(
    l: &Login,
    t: LoginTiming,
    e: String,
    preferred: Vec<String>,
    fallback: Vec<String>,
    buttons: Vec<String>,
    first: Result<LoginState, String>,
    second: Result<LoginState, String>,
    third: Result<LoginState, String>,
)
    requires
        call_ensures(preferred_user_selectors, (), preferred),
        call_ensures(fallback_user_selectors, (), fallback),
        call_ensures(auto_submit_selectors, (), buttons),
        call_ensures(login_next, (l, t, LoginState::WaitPreferred, Err(e)), first),
        call_ensures(login_next, (l, t, LoginState::WaitFallback, Err(e)), second),
        call_ensures(login_next, (l, t, LoginState::WaitAnySubmit, Err(e)), third),
    ensures
        first matches Err(m) ==> m@
            == "Timed out waiting for username field (preferred selectors for "@ + decimal(
            t.timeout_ms as nat,
        ) + "ms: "@ + joined(texts(preferred@), ", "@) + ")"@,
        t.timeout_ms > t.preferred_limit_ms ==> (second matches Err(m) && m@
            == "Timed out waiting for username field (preferred selectors for "@ + decimal(
            t.preferred_limit_ms as nat,
        ) + "ms: "@ + joined(texts(preferred@), ", "@) + "; fallback selectors for "@ + decimal(
            (t.timeout_ms - t.preferred_limit_ms) as nat,
        ) + "ms: "@ + joined(texts(fallback@), ", "@) + ")"@),
        third matches Err(m) && m@ == "Timed out waiting for submit button (tried selectors: "@
            + joined(texts(buttons@), ", "@) + ")"@,
{
}

} // verus!
