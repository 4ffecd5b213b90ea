//! The course of a login: the form is opened, the user's name and password are filled
//! in, and it is submitted.
use vstd::prelude::*;
use vstd::string::*;

use crate::auth::{
    auto_submit_selectors, fallback_fields, fallback_user_selectors, preferred_fields,
    preferred_user_selectors, submit_buttons, Login,
};
use crate::json::{opt_str, opt_string, Fields, Json, JsonV};
use crate::number::{decimal, decimal_text};
use crate::text::{join, joined, same, texts};

verus! {

/// How long a login waits for a navigation after the form was submitted.
pub const NAVIGATION_SECONDS: u64 = 10;

/// How long a login rests where no navigation was seen.
pub const SETTLE_SECONDS: u64 = 2;

/// How long a login waits for a part of the form, and how much of that at most for the
/// fields that most likely take the user's name.
#[derive(Clone, Copy, PartialEq, Eq, Structural, Debug)]
pub struct LoginTiming {
    pub timeout_ms: u64,
    pub preferred_limit_ms: u64,
}

impl LoginTiming {
    /// How long to wait for the fields that most likely take the user's name.
    pub open spec fn preferred_ms(self) -> int {
        if self.timeout_ms <= self.preferred_limit_ms {
            self.timeout_ms as int
        } else {
            self.preferred_limit_ms as int
        }
    }

    /// How long to wait for the other fields.
    pub open spec fn fallback_ms(self) -> int {
        self.timeout_ms - self.preferred_ms()
    }

    fn preferred(&self) -> (r: u64)
        ensures
            r == self.preferred_ms(),
    {
        if self.timeout_ms <= self.preferred_limit_ms {
            self.timeout_ms
        } else {
            self.preferred_limit_ms
        }
    }

    fn fallback(&self) -> (r: u64)
        ensures
            r == self.fallback_ms(),
    {
        self.timeout_ms - self.preferred()
    }
}

/// Where a login stands. A selector tells which element is meant.
#[derive(PartialEq, Eq, Debug)]
pub enum LoginState {
    Navigate,
    WaitUser(String),
    WaitPreferred,
    WaitFallback,
    FillUser(String),
    WaitPassword,
    FillPassword,
    WaitSubmit(String),
    WaitAnySubmit,
    Click(String),
    AwaitNavigation,
    Settle,
    Done,
}

/// The contents of a login's state.
pub ghost enum StateV {
    Navigate,
    WaitUser(Seq<char>),
    WaitPreferred,
    WaitFallback,
    FillUser(Seq<char>),
    WaitPassword,
    FillPassword,
    WaitSubmit(Seq<char>),
    WaitAnySubmit,
    Click(Seq<char>),
    AwaitNavigation,
    Settle,
    Done,
}

impl LoginState {
    /// The contents of the state.
    pub open spec fn view(self) -> StateV {
        match self {
            LoginState::Navigate => StateV::Navigate,
            LoginState::WaitUser(s) => StateV::WaitUser(s@),
            LoginState::WaitPreferred => StateV::WaitPreferred,
            LoginState::WaitFallback => StateV::WaitFallback,
            LoginState::FillUser(s) => StateV::FillUser(s@),
            LoginState::WaitPassword => StateV::WaitPassword,
            LoginState::FillPassword => StateV::FillPassword,
            LoginState::WaitSubmit(s) => StateV::WaitSubmit(s@),
            LoginState::WaitAnySubmit => StateV::WaitAnySubmit,
            LoginState::Click(s) => StateV::Click(s@),
            LoginState::AwaitNavigation => StateV::AwaitNavigation,
            LoginState::Settle => StateV::Settle,
            LoginState::Done => StateV::Done,
        }
    }
}

/// What is to be done in a state. Times are in milliseconds, but for those of the last
/// two, which are in seconds.
#[derive(PartialEq, Eq, Debug)]
pub enum LoginAction {
    Navigate(String),
    WaitVisible(String, u64),
    WaitAny(Vec<String>, u64),
    Fill(String, String),
    Click(String),
    AwaitNavigation(u64),
    Sleep(u64),
    Finish(Json),
}

/// The contents of an action.
pub ghost enum LoginActionV {
    Navigate(Seq<char>),
    WaitVisible(Seq<char>, int),
    WaitAny(Seq<Seq<char>>, int),
    Fill(Seq<char>, Seq<char>),
    Click(Seq<char>),
    AwaitNavigation(int),
    Sleep(int),
    Finish(JsonV),
}

impl LoginAction {
    /// The contents of the action.
    pub open spec fn view(self) -> LoginActionV {
        match self {
            LoginAction::Navigate(u) => LoginActionV::Navigate(u@),
            LoginAction::WaitVisible(s, t) => LoginActionV::WaitVisible(s@, t as int),
            LoginAction::WaitAny(l, t) => LoginActionV::WaitAny(texts(l@), t as int),
            LoginAction::Fill(s, v) => LoginActionV::Fill(s@, v@),
            LoginAction::Click(s) => LoginActionV::Click(s@),
            LoginAction::AwaitNavigation(t) => LoginActionV::AwaitNavigation(t as int),
            LoginAction::Sleep(t) => LoginActionV::Sleep(t as int),
            LoginAction::Finish(r) => LoginActionV::Finish(r.view()),
        }
    }
}

/// The answer to a login.
pub open spec fn logged_in(name: Seq<char>) -> JsonV {
    JsonV::Object(seq![("loggedIn"@, JsonV::Bool(true)), ("name"@, JsonV::Str(name))])
}

/// What is to be done in a state.
pub open spec fn action_of(l: Login, t: LoginTiming, state: StateV) -> LoginActionV {
    match state {
        StateV::Navigate => LoginActionV::Navigate(l.url@),
        StateV::WaitUser(s) => LoginActionV::WaitVisible(s, t.timeout_ms as int),
        StateV::WaitPreferred => LoginActionV::WaitAny(preferred_fields(), t.preferred_ms()),
        StateV::WaitFallback => LoginActionV::WaitAny(fallback_fields(), t.fallback_ms()),
        StateV::FillUser(s) => LoginActionV::Fill(s, l.username@),
        StateV::WaitPassword => LoginActionV::WaitVisible(
            l.password_selector@,
            t.timeout_ms as int,
        ),
        StateV::FillPassword => LoginActionV::Fill(l.password_selector@, l.password@),
        StateV::WaitSubmit(s) => LoginActionV::WaitVisible(s, t.timeout_ms as int),
        StateV::WaitAnySubmit => LoginActionV::WaitAny(submit_buttons(), t.timeout_ms as int),
        StateV::Click(s) => LoginActionV::Click(s),
        StateV::AwaitNavigation => LoginActionV::AwaitNavigation(NAVIGATION_SECONDS as int),
        StateV::Settle => LoginActionV::Sleep(SETTLE_SECONDS as int),
        StateV::Done => LoginActionV::Finish(logged_in(l.name@)),
    }
}

/// What is to be done in a state of a login.
pub fn login_action(l: &Login, t: LoginTiming, state: &LoginState) -> (r: LoginAction)
    ensures
        r.view() == action_of(*l, t, state.view()),
{
    match state {
        LoginState::Navigate => LoginAction::Navigate(l.url.clone()),
        LoginState::WaitUser(s) => LoginAction::WaitVisible(s.clone(), t.timeout_ms),
        LoginState::WaitPreferred => LoginAction::WaitAny(
            preferred_user_selectors(),
            t.preferred(),
        ),
        LoginState::WaitFallback => LoginAction::WaitAny(fallback_user_selectors(), t.fallback()),
        LoginState::FillUser(s) => LoginAction::Fill(s.clone(), l.username.clone()),
        LoginState::WaitPassword => LoginAction::WaitVisible(
            l.password_selector.clone(),
            t.timeout_ms,
        ),
        LoginState::FillPassword => LoginAction::Fill(
            l.password_selector.clone(),
            l.password.clone(),
        ),
        LoginState::WaitSubmit(s) => LoginAction::WaitVisible(s.clone(), t.timeout_ms),
        LoginState::WaitAnySubmit => LoginAction::WaitAny(auto_submit_selectors(), t.timeout_ms),
        LoginState::Click(s) => LoginAction::Click(s.clone()),
        LoginState::AwaitNavigation => LoginAction::AwaitNavigation(NAVIGATION_SECONDS),
        LoginState::Settle => LoginAction::Sleep(SETTLE_SECONDS),
        LoginState::Done => {
            let f = Fields::new().with("loggedIn", Json::truth(true)).with(
                "name",
                Json::text(&l.name),
            );
            assert(f.view() == logged_in(l.name@)->Object_0);
            LoginAction::Finish(f.done())
        },
    }
}

/// The message that none of the likely fields has come up.
pub open spec fn no_preferred_field(t: LoginTiming) -> Seq<char> {
    "Timed out waiting for username field (preferred selectors for "@ + decimal(
        t.preferred_ms() as nat,
    ) + "ms: "@ + joined(preferred_fields(), ", "@) + ")"@
}

/// The message that no field for the user's name has come up.
pub open spec fn no_user_field(t: LoginTiming) -> Seq<char> {
    "Timed out waiting for username field (preferred selectors for "@ + decimal(
        t.preferred_ms() as nat,
    ) + "ms: "@ + joined(preferred_fields(), ", "@) + "; fallback selectors for "@ + decimal(
        t.fallback_ms() as nat,
    ) + "ms: "@ + joined(fallback_fields(), ", "@) + ")"@
}

/// The message that a part of the form has not come up.
pub open spec fn not_visible(part: Seq<char>, selector: Seq<char>) -> Seq<char> {
    part + selector + "'"@
}

/// The message that no button to submit the form has come up.
pub open spec fn no_submit_button() -> Seq<char> {
    "Timed out waiting for submit button (tried selectors: "@ + joined(submit_buttons(), ", "@)
        + ")"@
}

/// Where a login goes for the user's name: to the field it was told of, or to look for
/// one.
pub open spec fn user_state(l: Login) -> StateV {
    match opt_string(l.username_selector) {
        Some(s) => StateV::WaitUser(s),
        None => StateV::WaitPreferred,
    }
}

/// Where a login goes to submit the form.
pub open spec fn submit_state(l: Login) -> StateV {
    match opt_string(l.submit_selector) {
        Some(s) => StateV::WaitSubmit(s),
        None => StateV::WaitAnySubmit,
    }
}

/// Where a login goes from a state, by the outcome of what was done in it: with the
/// selector of the element that a search has found, or with an error.
pub open spec fn next_state(
    l: Login,
    t: LoginTiming,
    state: StateV,
    result: Result<Seq<char>, Seq<char>>,
) -> Result<StateV, Seq<char>> {
    match state {
        StateV::Navigate => match result {
            Ok(_) => Ok(user_state(l)),
            Err(e) => Err(e),
        },
        StateV::WaitUser(s) => match result {
            Ok(_) => Ok(StateV::FillUser(s)),
            Err(_) => Err(not_visible("Timed out waiting for username selector '"@, s)),
        },
        StateV::WaitPreferred => match result {
            Ok(found) => Ok(StateV::FillUser(found)),
            Err(_) => if t.fallback_ms() == 0 {
                Err(no_preferred_field(t))
            } else {
                Ok(StateV::WaitFallback)
            },
        },
        StateV::WaitFallback => match result {
            Ok(found) => Ok(StateV::FillUser(found)),
            Err(_) => Err(no_user_field(t)),
        },
        StateV::FillUser(_) => match result {
            Ok(_) => Ok(StateV::WaitPassword),
            Err(e) => Err(e),
        },
        StateV::WaitPassword => match result {
            Ok(_) => Ok(StateV::FillPassword),
            Err(_) => Err(
                not_visible("Timed out waiting for password selector '"@, l.password_selector@),
            ),
        },
        StateV::FillPassword => match result {
            Ok(_) => Ok(submit_state(l)),
            Err(e) => Err(e),
        },
        StateV::WaitSubmit(s) => match result {
            Ok(_) => Ok(StateV::Click(s)),
            Err(_) => Err(not_visible("Timed out waiting for submit selector '"@, s)),
        },
        StateV::WaitAnySubmit => match result {
            Ok(found) => Ok(StateV::Click(found)),
            Err(_) => Err(no_submit_button()),
        },
        StateV::Click(_) => match result {
            Ok(_) => Ok(StateV::AwaitNavigation),
            Err(e) => Err(e),
        },
        StateV::AwaitNavigation => match result {
            Ok(_) => Ok(StateV::Done),
            Err(_) => Ok(StateV::Settle),
        },
        StateV::Settle => Ok(StateV::Done),
        StateV::Done => Ok(StateV::Done),
    }
}

/// The contents of a state or of an error message.
pub open spec fn state_outcome(r: Result<LoginState, String>) -> Result<StateV, Seq<char>> {
    match r {
        Ok(s) => Ok(s.view()),
        Err(e) => Err(e@),
    }
}

fn not_visible_message(part: &str, selector: &str) -> (r: String)
    ensures
        r@ == not_visible(part@, selector@),
{
    let mut m = part.to_owned();
    m.append(selector);
    m.append("'");
    m
}

fn no_preferred_field_message(t: LoginTiming) -> (r: String)
    ensures
        r@ == no_preferred_field(t),
{
    let mut m = "Timed out waiting for username field (preferred selectors for ".to_owned();
    m.append(decimal_text(t.preferred() as u128).as_str());
    m.append("ms: ");
    m.append(join(&preferred_user_selectors(), ", ").as_str());
    m.append(")");
    m
}

fn no_user_field_message(t: LoginTiming) -> (r: String)
    ensures
        r@ == no_user_field(t),
{
    let mut m = "Timed out waiting for username field (preferred selectors for ".to_owned();
    m.append(decimal_text(t.preferred() as u128).as_str());
    m.append("ms: ");
    m.append(join(&preferred_user_selectors(), ", ").as_str());
    m.append("; fallback selectors for ");
    m.append(decimal_text(t.fallback() as u128).as_str());
    m.append("ms: ");
    m.append(join(&fallback_user_selectors(), ", ").as_str());
    m.append(")");
    m
}

fn no_submit_button_message() -> (r: String)
    ensures
        r@ == no_submit_button(),
{
    let mut m = "Timed out waiting for submit button (tried selectors: ".to_owned();
    m.append(join(&auto_submit_selectors(), ", ").as_str());
    m.append(")");
    m
}

/// Where a login goes from a state, by the outcome of what was done in it.
pub fn login_next(
    l: &Login,
    t: LoginTiming,
    state: LoginState,
    result: Result<String, String>,
) -> (r: Result<LoginState, String>)
    ensures
        state_outcome(r) == next_state(*l, t, state.view(), crate::cdp::text_outcome(result)),
{
    match state {
        LoginState::Navigate => match result {
            Ok(_) => Ok(
                match &l.username_selector {
                    Some(s) => LoginState::WaitUser(s.clone()),
                    None => LoginState::WaitPreferred,
                },
            ),
            Err(e) => Err(e),
        },
        LoginState::WaitUser(s) => match result {
            Ok(_) => Ok(LoginState::FillUser(s)),
            Err(_) => Err(not_visible_message("Timed out waiting for username selector '", &s)),
        },
        LoginState::WaitPreferred => match result {
            Ok(found) => Ok(LoginState::FillUser(found)),
            Err(_) => if t.fallback() == 0 {
                Err(no_preferred_field_message(t))
            } else {
                Ok(LoginState::WaitFallback)
            },
        },
        LoginState::WaitFallback => match result {
            Ok(found) => Ok(LoginState::FillUser(found)),
            Err(_) => Err(no_user_field_message(t)),
        },
        LoginState::FillUser(_) => match result {
            Ok(_) => Ok(LoginState::WaitPassword),
            Err(e) => Err(e),
        },
        LoginState::WaitPassword => match result {
            Ok(_) => Ok(LoginState::FillPassword),
            Err(_) => Err(
                not_visible_message(
                    "Timed out waiting for password selector '",
                    &l.password_selector,
                ),
            ),
        },
        LoginState::FillPassword => match result {
            Ok(_) => Ok(
                match &l.submit_selector {
                    Some(s) => LoginState::WaitSubmit(s.clone()),
                    None => LoginState::WaitAnySubmit,
                },
            ),
            Err(e) => Err(e),
        },
        LoginState::WaitSubmit(s) => match result {
            Ok(_) => Ok(LoginState::Click(s)),
            Err(_) => Err(not_visible_message("Timed out waiting for submit selector '", &s)),
        },
        LoginState::WaitAnySubmit => match result {
            Ok(found) => Ok(LoginState::Click(found)),
            Err(_) => Err(no_submit_button_message()),
        },
        LoginState::Click(_) => match result {
            Ok(_) => Ok(LoginState::AwaitNavigation),
            Err(e) => Err(e),
        },
        LoginState::AwaitNavigation => match result {
            Ok(_) => Ok(LoginState::Done),
            Err(_) => Ok(LoginState::Settle),
        },
        LoginState::Settle => Ok(LoginState::Done),
        LoginState::Done => Ok(LoginState::Done),
    }
}

/// Whether an event of the browser shows that a session has come to a new page.
pub fn is_navigation(event_session: Option<&str>, method: &str, session: &str) -> (r: bool)
    ensures
        r == (opt_str(event_session) == Some(session@) && (method@ == "Page.frameNavigated"@
            || method@ == "Page.loadEventFired"@)),
{
    match event_session {
        Some(s) => same(s, session) && (same(method, "Page.frameNavigated") || same(
            method,
            "Page.loadEventFired",
        )),
        None => false,
    }
}

/// The two waits for the field for the user's name take as long together as any other
/// wait.
pub proof fn law_windows_fill_the_timeout(t: LoginTiming)
    ensures
        t.preferred_ms() + t.fallback_ms() == t.timeout_ms,
        0 <= t.preferred_ms() <= t.preferred_limit_ms,
        0 <= t.fallback_ms(),
{
}

/// How far a login has come.
pub open spec fn progress(state: StateV) -> int {
    match state {
        StateV::Navigate => 0,
        StateV::WaitUser(_) => 1,
        StateV::WaitPreferred => 1,
        StateV::WaitFallback => 2,
        StateV::FillUser(_) => 3,
        StateV::WaitPassword => 4,
        StateV::FillPassword => 5,
        StateV::WaitSubmit(_) => 6,
        StateV::WaitAnySubmit => 6,
        StateV::Click(_) => 7,
        StateV::AwaitNavigation => 8,
        StateV::Settle => 9,
        StateV::Done => 10,
    }
}

/// A login never goes back, and does not stay in a state: so it ends after at most ten
/// steps.
pub proof fn law_login_advances(
    l: Login,
    t: LoginTiming,
    state: StateV,
    result: Result<Seq<char>, Seq<char>>,
)
    requires
        !(state is Done),
        next_state(l, t, state, result) is Ok,
    ensures
        progress(state) < progress(next_state(l, t, state, result)->Ok_0) <= 10,
{
}

/// The states that a login comes through from a state, with the given outcomes.
pub open spec fn course(
    l: Login,
    t: LoginTiming,
    state: StateV,
    results: Seq<Result<Seq<char>, Seq<char>>>,
) -> Seq<StateV>
    decreases results.len(),
{
    if results.len() == 0 {
        seq![state]
    } else {
        match next_state(l, t, state, results[0]) {
            Ok(next) => seq![state] + course(l, t, next, results.skip(1)),
            Err(_) => seq![state],
        }
    }
}

proof fn lemma_course_clicks(
    l: Login,
    t: LoginTiming,
    state: StateV,
    results: Seq<Result<Seq<char>, Seq<char>>>,
) -> (k: int)
    requires
        progress(state) <= 7,
        course(l, t, state, results).last() is Done,
    ensures
        0 <= k < course(l, t, state, results).len(),
        course(l, t, state, results)[k] is Click,
    decreases results.len(),
{
    let all = course(l, t, state, results);
    assert(all.len() > 0 && all[0] == state);
    if state is Click {
        0
    } else {
        let next = next_state(l, t, state, results[0])->Ok_0;
        let rest = course(l, t, next, results.skip(1));
        assert(all == seq![state] + rest);
        assert(rest.len() > 0);
        assert(rest.last() == all.last());
        let k = lemma_course_clicks(l, t, next, results.skip(1));
        assert(all[k + 1] == rest[k]);
        k + 1
    }
}

proof fn lemma_course_fills_password(
    l: Login,
    t: LoginTiming,
    state: StateV,
    results: Seq<Result<Seq<char>, Seq<char>>>,
) -> (r: (int, int))
    requires
        progress(state) <= 5,
        course(l, t, state, results).last() is Done,
    ensures
        0 <= r.0 < r.1 < course(l, t, state, results).len(),
        course(l, t, state, results)[r.0] is FillPassword,
        course(l, t, state, results)[r.1] is Click,
    decreases results.len(),
{
    let all = course(l, t, state, results);
    assert(all.len() > 0 && all[0] == state);
    let next = next_state(l, t, state, results[0])->Ok_0;
    let rest = course(l, t, next, results.skip(1));
    assert(all == seq![state] + rest);
    assert(rest.len() > 0);
    assert(rest.last() == all.last());
    if state is FillPassword {
        let k = lemma_course_clicks(l, t, next, results.skip(1));
        assert(all[k + 1] == rest[k]);
        (0, k + 1)
    } else {
        let (j, k) = lemma_course_fills_password(l, t, next, results.skip(1));
        assert(all[j + 1] == rest[j]);
        assert(all[k + 1] == rest[k]);
        (j + 1, k + 1)
    }
}

proof fn lemma_course_fills_user(
    l: Login,
    t: LoginTiming,
    state: StateV,
    results: Seq<Result<Seq<char>, Seq<char>>>,
) -> (r: (int, int, int))
    requires
        progress(state) <= 3,
        course(l, t, state, results).last() is Done,
    ensures
        0 <= r.0 < r.1 < r.2 < course(l, t, state, results).len(),
        course(l, t, state, results)[r.0] is FillUser,
        course(l, t, state, results)[r.1] is FillPassword,
        course(l, t, state, results)[r.2] is Click,
    decreases results.len(),
{
    let all = course(l, t, state, results);
    assert(all.len() > 0 && all[0] == state);
    let next = next_state(l, t, state, results[0])->Ok_0;
    let rest = course(l, t, next, results.skip(1));
    assert(all == seq![state] + rest);
    assert(rest.len() > 0);
    assert(rest.last() == all.last());
    if state is FillUser {
        let (j, k) = lemma_course_fills_password(l, t, next, results.skip(1));
        assert(all[j + 1] == rest[j]);
        assert(all[k + 1] == rest[k]);
        (0, j + 1, k + 1)
    } else {
        let (i, j, k) = lemma_course_fills_user(l, t, next, results.skip(1));
        assert(all[i + 1] == rest[i]);
        assert(all[j + 1] == rest[j]);
        assert(all[k + 1] == rest[k]);
        (i + 1, j + 1, k + 1)
    }
}

/// A login that has come to its end has filled in the user's name, then the password,
/// and has then clicked the button: it leaves none of these out.
pub proof fn law_login_fills_in_and_submits(
    l: Login,
    t: LoginTiming,
    results: Seq<Result<Seq<char>, Seq<char>>>,
)
    requires
        course(l, t, StateV::Navigate, results).last() is Done,
    ensures
        exists|i: int, j: int, k: int|
            0 <= i < j < k < course(l, t, StateV::Navigate, results).len() && (
            #[trigger] course(l, t, StateV::Navigate, results)[i]) is FillUser && (
            #[trigger] course(l, t, StateV::Navigate, results)[j]) is FillPassword && (
            #[trigger] course(l, t, StateV::Navigate, results)[k]) is Click,
{
    let (i, j, k) = lemma_course_fills_user(l, t, StateV::Navigate, results);
}

} // verus!
