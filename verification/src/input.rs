//! Mouse, keyboard and touch input.
use vstd::prelude::*;
use vstd::string::*;

use crate::cdp::{command, outcome, req_str, required, Browser, CdpCommand, Exchange, ExchangeV};
use crate::json::{opt_str, opt_string, or_else, Fields, Items, Json, JsonV, Num};
use crate::text::same;

verus! {

/// The bit of a mouse button in a button mask; none for an unknown name.
pub open spec fn button_bit(button: Seq<char>) -> i32 {
    if button == "left"@ {
        1
    } else if button == "right"@ {
        2
    } else if button == "middle"@ {
        4
    } else if button == "back"@ {
        8
    } else if button == "forward"@ {
        16
    } else {
        0
    }
}

/// The button that a mask shows as pressed, the most important one first.
pub open spec fn primary_button(buttons: i32) -> Seq<char> {
    if buttons & 1 != 0 {
        "left"@
    } else if buttons & 2 != 0 {
        "right"@
    } else if buttons & 4 != 0 {
        "middle"@
    } else if buttons & 8 != 0 {
        "back"@
    } else if buttons & 16 != 0 {
        "forward"@
    } else {
        "none"@
    }
}

/// The bit of a mouse button in a button mask; 0 for an unknown name.
pub fn mouse_button_mask(button: &str) -> (r: i32)
    ensures
        r == button_bit(button@),
{
    if same(button, "left") {
        1
    } else if same(button, "right") {
        2
    } else if same(button, "middle") {
        4
    } else if same(button, "back") {
        8
    } else if same(button, "forward") {
        16
    } else {
        0
    }
}

/// The button that a mask shows as pressed, the most important one first.
pub fn primary_button_from_mask(buttons: i32) -> (r: &'static str)
    ensures
        r@ == primary_button(buttons),
{
    if buttons & 1 != 0 {
        "left"
    } else if buttons & 2 != 0 {
        "right"
    } else if buttons & 4 != 0 {
        "middle"
    } else if buttons & 8 != 0 {
        "back"
    } else if buttons & 16 != 0 {
        "forward"
    } else {
        "none"
    }
}

/// Where the mouse stands and which buttons are held.
#[derive(PartialEq, Eq, Debug)]
pub struct MouseState {
    pub x: Num,
    pub y: Num,
    pub buttons: i32,
}

/// The parameters of a mouse event.
#[derive(PartialEq, Eq, Debug)]
pub struct DispatchMouseEventParams {
    pub event_type: String,
    pub x: Num,
    pub y: Num,
    pub button: Option<String>,
    pub buttons: Option<i32>,
    pub click_count: Option<i32>,
    pub delta_x: Option<Num>,
    pub delta_y: Option<Num>,
    pub modifiers: Option<i32>,
}

/// The buttons held after a mouse event: those that the event itself gives; else a
/// press adds its button, a release takes its button away, and nothing else changes
/// them. The button is the left one where none is named.
pub open spec fn next_buttons(
    held: i32,
    event_type: Seq<char>,
    button: Option<Seq<char>>,
    buttons: Option<i32>,
) -> i32 {
    let bit = button_bit(or_else(button, "left"@));
    match buttons {
        Some(b) => b,
        None => if event_type == "mousePressed"@ {
            held | bit
        } else if event_type == "mouseReleased"@ {
            held & !bit
        } else {
            held
        },
    }
}

/// Builds the parameters of a mouse event and moves the mouse state on with it.
pub fn build_mouse_event_params(
    mouse_state: &mut MouseState,
    event_type: &str,
    x: Option<Num>,
    y: Option<Num>,
    button: Option<&str>,
    buttons: Option<i32>,
    click_count: Option<i32>,
    delta_x: Option<Num>,
    delta_y: Option<Num>,
    modifiers: Option<i32>,
) -> (r: DispatchMouseEventParams)
    ensures
        final(mouse_state).x == or_else(x, old(mouse_state).x),
        final(mouse_state).y == or_else(y, old(mouse_state).y),
        final(mouse_state).buttons == next_buttons(
            old(mouse_state).buttons,
            event_type@,
            opt_str(button),
            buttons,
        ),
        r.event_type@ == event_type@,
        r.x == final(mouse_state).x,
        r.y == final(mouse_state).y,
        opt_string(r.button) == Some(
            or_else(opt_str(button), primary_button(final(mouse_state).buttons)),
        ),
        r.buttons == Some(final(mouse_state).buttons),
        r.click_count == click_count,
        r.delta_x == delta_x,
        r.delta_y == delta_y,
        r.modifiers == modifiers,
{
    let x = match x {
        Some(x) => x,
        None => mouse_state.x,
    };
    let y = match y {
        Some(y) => y,
        None => mouse_state.y,
    };
    mouse_state.x = x;
    mouse_state.y = y;
    let named: &str = match button {
        Some(b) => b,
        None => "left",
    };
    let next: i32 = match buttons {
        Some(b) => b,
        None => if same(event_type, "mousePressed") {
            mouse_state.buttons | mouse_button_mask(named)
        } else if same(event_type, "mouseReleased") {
            mouse_state.buttons & !mouse_button_mask(named)
        } else {
            mouse_state.buttons
        },
    };
    mouse_state.buttons = next;
    let shown: &str = match button {
        Some(b) => b,
        None => primary_button_from_mask(next),
    };
    DispatchMouseEventParams {
        event_type: event_type.to_owned(),
        x,
        y,
        button: Some(shown.to_owned()),
        buttons: Some(next),
        click_count,
        delta_x,
        delta_y,
        modifiers,
    }
}

/// The name of a button with a bit of its own.
pub open spec fn is_button(button: Seq<char>) -> bool {
    ||| button == "left"@
    ||| button == "right"@
    ||| button == "middle"@
    ||| button == "back"@
    ||| button == "forward"@
}

pub(crate) proof fn lemma_button_names_differ()
    ensures
        "left"@ != "right"@,
        "left"@ != "middle"@,
        "left"@ != "back"@,
        "left"@ != "forward"@,
        "right"@ != "middle"@,
        "right"@ != "back"@,
        "right"@ != "forward"@,
        "middle"@ != "back"@,
        "middle"@ != "forward"@,
        "back"@ != "forward"@,
        "mousePressed"@ != "mouseReleased"@,
{
    reveal_strlit("left");
    reveal_strlit("right");
    reveal_strlit("middle");
    reveal_strlit("back");
    reveal_strlit("forward");
    reveal_strlit("mousePressed");
    reveal_strlit("mouseReleased");
    assert("left"@.len() == 4 && "right"@.len() == 5 && "middle"@.len() == 6 && "back"@.len() == 4
        && "forward"@.len() == 7);
    assert("left"@[0] == 'l' && "back"@[0] == 'b');
    assert("mousePressed"@.len() == 12 && "mouseReleased"@.len() == 13);
}

/// Each button is the one shown for its own bit.
pub proof fn law_primary_button_of_bit(button: Seq<char>)
    requires
        is_button(button),
    ensures
        primary_button(button_bit(button)) == button,
{
    lemma_button_names_differ();
    assert(1i32 & 1 == 1 && 2i32 & 1 == 0 && 2i32 & 2 == 2 && 4i32 & 1 == 0 && 4i32 & 2 == 0 && 4i32
        & 4 == 4 && 8i32 & 1 == 0 && 8i32 & 2 == 0 && 8i32 & 4 == 0 && 8i32 & 8 == 8 && 16i32 & 1 == 0
        && 16i32 & 2 == 0 && 16i32 & 4 == 0 && 16i32 & 8 == 0 && 16i32 & 16 == 16) by (bit_vector);
}

/// A press leaves the button held, a release leaves it free, and neither changes
/// whether any other button is held.
pub proof fn law_press_and_release(held: i32, button: Seq<char>, other: Seq<char>)
    requires
        is_button(button),
    ensures
        ({
            let bit = button_bit(button);
            let pressed = next_buttons(held, "mousePressed"@, Some(button), None);
            let released = next_buttons(held, "mouseReleased"@, Some(button), None);
            &&& pressed & bit != 0
            &&& released & bit == 0
            &&& is_button(other) && other != button ==> pressed & button_bit(other) == held
                & button_bit(other)
            &&& is_button(other) && other != button ==> released & button_bit(other) == held
                & button_bit(other)
        }),
{
    lemma_button_names_differ();
    let bit = button_bit(button);
    assert((bit == 1 || bit == 2 || bit == 4 || bit == 8 || bit == 16) ==> (held | bit) & bit != 0
        && (held & !bit) & bit == 0) by (bit_vector);
    if is_button(other) && other != button {
        let o = button_bit(other);
        assert((bit == 1 || bit == 2 || bit == 4 || bit == 8 || bit == 16) && (o == 1 || o == 2 || o
            == 4 || o == 8 || o == 16) && o != bit ==> (held | bit) & o == held & o && (held & !bit)
            & o == held & o) by (bit_vector);
    }
}

/// Releasing a button that was free before it was pressed leaves the buttons as
/// they were before the press.
pub proof fn law_release_undoes_press(held: i32, button: Seq<char>)
    requires
        held & button_bit(button) == 0,
    ensures
        next_buttons(
            next_buttons(held, "mousePressed"@, Some(button), None),
            "mouseReleased"@,
            Some(button),
            None,
        ) == held,
{
    lemma_button_names_differ();
    let bit = button_bit(button);
    assert(held & bit == 0 ==> (held | bit) & !bit == held) by (bit_vector);
}

/// A mouse event to send, and what to answer once it is dispatched.
#[derive(PartialEq, Eq, Debug)]
pub struct MouseExchange {
    pub session: String,
    pub params: DispatchMouseEventParams,
    pub reply: Json,
}

/// The integer under a key, cut to 32 bits.
pub open spec fn i32_at(cmd: JsonV, key: Seq<char>) -> Option<i32> {
    match cmd.i64_at(key) {
        Some(n) => Some(n as i32),
        None => None,
    }
}

fn read_i32(cmd: &Json, key: &str) -> (r: Option<i32>)
    ensures
        r == i32_at(cmd.view(), key@),
{
    match cmd.i64_at(key) {
        Some(n) => Some(
            #[verifier::truncate]
            (n as i32),
        ),
        None => None,
    }
}

/// Dispatches the mouse event that a command describes. Without an active session
/// nothing changes.
pub fn handle_input_mouse(cmd: &Json, browser: &Browser, mouse: &mut MouseState) -> (r: Result<
    MouseExchange,
    String,
>)
    ensures
        ({
            let c = cmd.view();
            let event = or_else(c.str_at("type"@), "mouseMoved"@);
            let button = c.str_at("button"@);
            match browser.session_view() {
                Err(e) => r is Err && r->Err_0@ == e && *final(mouse) == *old(mouse),
                Ok(session) => {
                    &&& r is Ok
                    &&& r->Ok_0.session@ == session
                    &&& final(mouse).x == or_else(c.number_at("x"@), old(mouse).x)
                    &&& final(mouse).y == or_else(c.number_at("y"@), old(mouse).y)
                    &&& final(mouse).buttons == next_buttons(
                        old(mouse).buttons,
                        event,
                        button,
                        i32_at(c, "buttons"@),
                    )
                    &&& r->Ok_0.params.event_type@ == event
                    &&& r->Ok_0.params.x == final(mouse).x
                    &&& r->Ok_0.params.y == final(mouse).y
                    &&& opt_string(r->Ok_0.params.button) == Some(
                        or_else(button, primary_button(final(mouse).buttons)),
                    )
                    &&& r->Ok_0.params.buttons == Some(final(mouse).buttons)
                    &&& r->Ok_0.params.click_count == i32_at(c, "clickCount"@)
                    &&& r->Ok_0.params.delta_x == c.number_at("deltaX"@)
                    &&& r->Ok_0.params.delta_y == c.number_at("deltaY"@)
                    &&& r->Ok_0.params.modifiers == i32_at(c, "modifiers"@)
                    &&& r->Ok_0.reply.view() == JsonV::Object(
                        seq![("dispatched"@, JsonV::Str(event))],
                    )
                },
            }
        }),
{
    let session = match browser.session() {
        Ok(s) => s,
        Err(e) => {
            return Err(e);
        },
    };
    let event: &str = match cmd.str_at("type") {
        Some(t) => t,
        None => "mouseMoved",
    };
    let params = build_mouse_event_params(
        mouse,
        event,
        cmd.number_at("x"),
        cmd.number_at("y"),
        cmd.str_at("button"),
        read_i32(cmd, "buttons"),
        read_i32(cmd, "clickCount"),
        cmd.number_at("deltaX"),
        cmd.number_at("deltaY"),
        read_i32(cmd, "modifiers"),
    );
    let reply = Fields::new().with("dispatched", Json::text(event)).done();
    Ok(MouseExchange { session, params, reply })
}

/// The parameters of a plain mouse event: no wheel movement, no modifiers.
pub open spec fn plain_event(
    p: DispatchMouseEventParams,
    event: Seq<char>,
    after: MouseState,
    button: Option<Seq<char>>,
    click_count: Option<i32>,
) -> bool {
    &&& p.event_type@ == event
    &&& p.x == after.x
    &&& p.y == after.y
    &&& opt_string(p.button) == Some(or_else(button, primary_button(after.buttons)))
    &&& p.buttons == Some(after.buttons)
    &&& p.click_count == click_count
    &&& p.delta_x is None
    &&& p.delta_y is None
    &&& p.modifiers is None
}

/// Moves the mouse to the point that a command gives; a coordinate that it does not
/// give is 0. The held buttons stay held.
pub fn handle_mousemove(cmd: &Json, browser: &Browser, mouse: &mut MouseState) -> (r: Result<
    MouseExchange,
    String,
>)
    ensures
        match browser.session_view() {
            Err(e) => r is Err && r->Err_0@ == e && *final(mouse) == *old(mouse),
            Ok(session) => {
                &&& r is Ok
                &&& r->Ok_0.session@ == session
                &&& final(mouse).x == or_else(cmd.view().number_at("x"@), Num::Unsigned(0))
                &&& final(mouse).y == or_else(cmd.view().number_at("y"@), Num::Unsigned(0))
                &&& final(mouse).buttons == old(mouse).buttons
                &&& plain_event(r->Ok_0.params, "mouseMoved"@, *final(mouse), None, None)
                &&& r->Ok_0.reply.view() == JsonV::Object(seq![("moved"@, JsonV::Bool(true))])
            },
        },
{
    let session = match browser.session() {
        Ok(s) => s,
        Err(e) => {
            return Err(e);
        },
    };
    let x = match cmd.number_at("x") {
        Some(x) => x,
        None => Num::Unsigned(0),
    };
    let y = match cmd.number_at("y") {
        Some(y) => y,
        None => Num::Unsigned(0),
    };
    proof {
        reveal_strlit("mouseMoved");
        reveal_strlit("mousePressed");
        reveal_strlit("mouseReleased");
        assert("mouseMoved"@.len() == 10 && "mousePressed"@.len() == 12 && "mouseReleased"@.len()
            == 13);
    }
    let params = build_mouse_event_params(
        mouse,
        "mouseMoved",
        Some(x),
        Some(y),
        None,
        None,
        None,
        None,
        None,
        None,
    );
    let reply = Fields::new().with("moved", Json::truth(true)).done();
    Ok(MouseExchange { session, params, reply })
}

/// Presses the button that a command names, the left one by default, where the
/// mouse stands.
pub fn handle_mousedown(cmd: &Json, browser: &Browser, mouse: &mut MouseState) -> (r: Result<
    MouseExchange,
    String,
>)
    ensures
        ({
            let button = or_else(cmd.view().str_at("button"@), "left"@);
            match browser.session_view() {
                Err(e) => r is Err && r->Err_0@ == e && *final(mouse) == *old(mouse),
                Ok(session) => {
                    &&& r is Ok
                    &&& r->Ok_0.session@ == session
                    &&& final(mouse).x == old(mouse).x
                    &&& final(mouse).y == old(mouse).y
                    &&& final(mouse).buttons == old(mouse).buttons | button_bit(button)
                    &&& plain_event(
                        r->Ok_0.params,
                        "mousePressed"@,
                        *final(mouse),
                        Some(button),
                        Some(1i32),
                    )
                    &&& r->Ok_0.reply.view() == JsonV::Object(seq![("pressed"@, JsonV::Bool(true))])
                },
            }
        }),
{
    let session = match browser.session() {
        Ok(s) => s,
        Err(e) => {
            return Err(e);
        },
    };
    let button: &str = match cmd.str_at("button") {
        Some(b) => b,
        None => "left",
    };
    let params = build_mouse_event_params(
        mouse,
        "mousePressed",
        None,
        None,
        Some(button),
        None,
        Some(1),
        None,
        None,
        None,
    );
    let reply = Fields::new().with("pressed", Json::truth(true)).done();
    Ok(MouseExchange { session, params, reply })
}

/// Releases the button that a command names, the left one by default, where the
/// mouse stands.
pub fn handle_mouseup(cmd: &Json, browser: &Browser, mouse: &mut MouseState) -> (r: Result<
    MouseExchange,
    String,
>)
    ensures
        ({
            let button = or_else(cmd.view().str_at("button"@), "left"@);
            match browser.session_view() {
                Err(e) => r is Err && r->Err_0@ == e && *final(mouse) == *old(mouse),
                Ok(session) => {
                    &&& r is Ok
                    &&& r->Ok_0.session@ == session
                    &&& final(mouse).x == old(mouse).x
                    &&& final(mouse).y == old(mouse).y
                    &&& final(mouse).buttons == old(mouse).buttons & !button_bit(button)
                    &&& plain_event(
                        r->Ok_0.params,
                        "mouseReleased"@,
                        *final(mouse),
                        Some(button),
                        Some(1i32),
                    )
                    &&& r->Ok_0.reply.view() == JsonV::Object(
                        seq![("released"@, JsonV::Bool(true))],
                    )
                },
            }
        }),
{
    let session = match browser.session() {
        Ok(s) => s,
        Err(e) => {
            return Err(e);
        },
    };
    let button: &str = match cmd.str_at("button") {
        Some(b) => b,
        None => "left",
    };
    proof {
        lemma_button_names_differ();
    }
    let params = build_mouse_event_params(
        mouse,
        "mouseReleased",
        None,
        None,
        Some(button),
        None,
        Some(1),
        None,
        None,
        None,
    );
    let reply = Fields::new().with("released", Json::truth(true)).done();
    Ok(MouseExchange { session, params, reply })
}

/// The fields, with the one more that the command holds under the key, if it holds any.
pub open spec fn with_copied(
    fields: Seq<(Seq<char>, JsonV)>,
    cmd: JsonV,
    key: Seq<char>,
) -> Seq<(Seq<char>, JsonV)> {
    match cmd.get(key) {
        Some(v) => fields.push((key, v)),
        None => fields,
    }
}

fn copy_field(fields: Fields, cmd: &Json, key: &str) -> (r: Fields)
    ensures
        r.view() == with_copied(fields.view(), cmd.view(), key@),
{
    match cmd.get(key) {
        Some(v) => fields.with(key, v.duplicate()),
        None => fields,
    }
}

/// The keyboard event that a command describes: its type, `keyDown` by default, and
/// whatever it holds as key, code and text.
pub open spec fn keyboard_event(cmd: JsonV) -> Seq<(Seq<char>, JsonV)> {
    let event = or_else(cmd.str_at("type"@), "keyDown"@);
    let start = seq![("type"@, JsonV::Str(event))];
    with_copied(with_copied(with_copied(start, cmd, "key"@), cmd, "code"@), cmd, "text"@)
}

/// Dispatches the keyboard event that a command describes.
pub fn handle_input_keyboard(cmd: &Json, browser: &Browser) -> (r: Result<Exchange, String>)
    ensures
        outcome(r) == match browser.session_view() {
            Err(e) => Err::<ExchangeV, Seq<char>>(e),
            Ok(session) => Ok(
                ExchangeV {
                    command: command(
                        "Input.dispatchKeyEvent"@,
                        JsonV::Object(keyboard_event(cmd.view())),
                        session,
                    ),
                    reply: JsonV::Object(
                        seq![
                            (
                                "dispatched"@,
                                JsonV::Str(or_else(cmd.view().str_at("type"@), "keyDown"@)),
                            ),
                        ],
                    ),
                },
            ),
        },
{
    let session = match browser.session() {
        Ok(s) => s,
        Err(e) => {
            return Err(e);
        },
    };
    let event: &str = match cmd.str_at("type") {
        Some(t) => t,
        None => "keyDown",
    };
    let start = Fields::new().with("type", Json::text(event));
    assert(start.view() == seq![("type"@, JsonV::Str(event@))]);
    let params = copy_field(copy_field(copy_field(start, cmd, "key"), cmd, "code"), cmd, "text");
    let reply = Fields::new().with("dispatched", Json::text(event));
    assert(reply.view() == seq![("dispatched"@, JsonV::Str(event@))]);
    Ok(
        Exchange {
            command: CdpCommand::new("Input.dispatchKeyEvent", params.done(), &session),
            reply: reply.done(),
        },
    )
}

/// Dispatches the touch event that a command describes: its type, `touchStart` by
/// default, and its touch points, none by default.
pub fn handle_input_touch(cmd: &Json, browser: &Browser) -> (r: Result<Exchange, String>)
    ensures
        ({
            let event = or_else(cmd.view().str_at("type"@), "touchStart"@);
            let points = or_else(
                cmd.view().get("touchPoints"@),
                JsonV::Array(Seq::<JsonV>::empty()),
            );
            outcome(r) == match browser.session_view() {
                Err(e) => Err::<ExchangeV, Seq<char>>(e),
                Ok(session) => Ok(
                    ExchangeV {
                        command: command(
                            "Input.dispatchTouchEvent"@,
                            JsonV::Object(
                                seq![("type"@, JsonV::Str(event)), ("touchPoints"@, points)],
                            ),
                            session,
                        ),
                        reply: JsonV::Object(seq![("dispatched"@, JsonV::Str(event))]),
                    },
                ),
            }
        }),
{
    let session = match browser.session() {
        Ok(s) => s,
        Err(e) => {
            return Err(e);
        },
    };
    let event: &str = match cmd.str_at("type") {
        Some(t) => t,
        None => "touchStart",
    };
    let points = match cmd.get("touchPoints") {
        Some(v) => v.duplicate(),
        None => Items::new().done(),
    };
    let params = Fields::new().with("type", Json::text(event)).with("touchPoints", points);
    let reply = Fields::new().with("dispatched", Json::text(event));
    proof {
        let p = or_else(cmd.view().get("touchPoints"@), JsonV::Array(Seq::<JsonV>::empty()));
        assert(params.view() == seq![("type"@, JsonV::Str(event@)), ("touchPoints"@, p)]);
        assert(reply.view() == seq![("dispatched"@, JsonV::Str(event@))]);
    }
    Ok(
        Exchange {
            command: CdpCommand::new("Input.dispatchTouchEvent", params.done(), &session),
            reply: reply.done(),
        },
    )
}

/// The key event of the given type for the key that a command has to name.
pub open spec fn key_exchange(
    cmd: JsonV,
    browser: Browser,
    event: Seq<char>,
    answer: Seq<char>,
) -> Result<ExchangeV, Seq<char>> {
    match browser.session_view() {
        Err(e) => Err(e),
        Ok(session) => match required(cmd, "key"@) {
            Err(e) => Err(e),
            Ok(key) => Ok(
                ExchangeV {
                    command: command(
                        "Input.dispatchKeyEvent"@,
                        JsonV::Object(
                            seq![("type"@, JsonV::Str(event)), ("key"@, JsonV::Str(key))],
                        ),
                        session,
                    ),
                    reply: JsonV::Object(seq![(answer, JsonV::Str(key))]),
                },
            ),
        },
    }
}

fn dispatch_key(cmd: &Json, browser: &Browser, event: &str, answer: &str) -> (r: Result<
    Exchange,
    String,
>)
    ensures
        outcome(r) == key_exchange(cmd.view(), *browser, event@, answer@),
{
    let session = match browser.session() {
        Ok(s) => s,
        Err(e) => {
            return Err(e);
        },
    };
    let key = match req_str(cmd, "key") {
        Ok(s) => s,
        Err(e) => {
            return Err(e);
        },
    };
    let params = Fields::new().with("type", Json::text(event)).with("key", Json::text(&key));
    let reply = Fields::new().with(answer, Json::text(&key));
    proof {
        assert(params.view() == seq![("type"@, JsonV::Str(event@)), ("key"@, JsonV::Str(key@))]);
        assert(reply.view() == seq![(answer@, JsonV::Str(key@))]);
    }
    Ok(
        Exchange {
            command: CdpCommand::new("Input.dispatchKeyEvent", params.done(), &session),
            reply: reply.done(),
        },
    )
}

/// Presses the key that a command names.
pub fn handle_keydown(cmd: &Json, browser: &Browser) -> (r: Result<Exchange, String>)
    ensures
        outcome(r) == key_exchange(cmd.view(), *browser, "keyDown"@, "keydown"@),
{
    dispatch_key(cmd, browser, "keyDown", "keydown")
}

/// Releases the key that a command names.
pub fn handle_keyup(cmd: &Json, browser: &Browser) -> (r: Result<Exchange, String>)
    ensures
        outcome(r) == key_exchange(cmd.view(), *browser, "keyUp"@, "keyup"@),
{
    dispatch_key(cmd, browser, "keyUp", "keyup")
}

/// Inserts the text that a command has to hold.
pub fn handle_inserttext(cmd: &Json, browser: &Browser) -> (r: Result<Exchange, String>)
    ensures
        outcome(r) == match browser.session_view() {
            Err(e) => Err::<ExchangeV, Seq<char>>(e),
            Ok(session) => match required(cmd.view(), "text"@) {
                Err(e) => Err(e),
                Ok(text) => Ok(
                    ExchangeV {
                        command: command(
                            "Input.insertText"@,
                            JsonV::Object(seq![("text"@, JsonV::Str(text))]),
                            session,
                        ),
                        reply: JsonV::Object(seq![("inserted"@, JsonV::Bool(true))]),
                    },
                ),
            },
        },
{
    let session = match browser.session() {
        Ok(s) => s,
        Err(e) => {
            return Err(e);
        },
    };
    let text = match req_str(cmd, "text") {
        Ok(s) => s,
        Err(e) => {
            return Err(e);
        },
    };
    let params = Fields::new().with("text", Json::text(&text));
    let reply = Fields::new().with("inserted", Json::truth(true));
    proof {
        assert(params.view() == seq![("text"@, JsonV::Str(text@))]);
        assert(reply.view() == seq![("inserted"@, JsonV::Bool(true))]);
    }
    Ok(
        Exchange {
            command: CdpCommand::new("Input.insertText", params.done(), &session),
            reply: reply.done(),
        },
    )
}

} // verus!
